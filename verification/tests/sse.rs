use bytes::Bytes;
use deboa_extras::errors::{ClientError, DeboaExtrasError, SSEError};
use deboa_extras::http::sse::event::ServerEvent;
use deboa_extras::http::sse::response::check_event_stream;

#[test]
fn test_parse_event() {
    let event = ServerEvent::parse(&Bytes::from("id: 1\n\ndata: 2\n\n")).unwrap();
    assert_eq!(event.id(), &Some("1".to_string()));
    assert_eq!(event.data(), &vec!["2".to_string()]);
}

#[test]
fn sse_reads_every_field() {
    let chunk = b"id: 42\nevent: update\nretry: 3000\ndata: first\ndata: second\n";
    let event = ServerEvent::parse(chunk).unwrap();
    assert_eq!(event.id(), &Some("42".to_string()));
    assert_eq!(event.event(), &Some("update".to_string()));
    assert_eq!(event.retry(), &Some(3000));
    assert_eq!(event.data(), &vec!["first".to_string(), "second".to_string()]);
}

#[test]
fn sse_last_id_wins() {
    let event = ServerEvent::parse(b"id: a\nid: b\n").unwrap();
    assert_eq!(event.id(), &Some("b".to_string()));
}

#[test]
fn sse_done_ends_event() {
    let event = ServerEvent::parse(b"data: one\ndata: [DONE]\ndata: two\nid: 9\n").unwrap();
    assert_eq!(event.data(), &vec!["one".to_string()]);
    assert_eq!(event.id(), &None);
}

#[test]
fn sse_crlf_lines_and_last_line_without_newline() {
    let event = ServerEvent::parse(b"id: 7\r\ndata: x\r\ndata: y").unwrap();
    assert_eq!(event.id(), &Some("7".to_string()));
    assert_eq!(event.data(), &vec!["x".to_string(), "y".to_string()]);
    // a carriage return at the very end is kept, as `str::lines` keeps it
    let event = ServerEvent::parse(b"data: z\r").unwrap();
    assert_eq!(event.data(), &vec!["z\r".to_string()]);
}

#[test]
fn sse_unknown_lines_and_missing_space_are_skipped() {
    let event = ServerEvent::parse(b": comment\nid:1\nfoo: bar\ndata:2\n").unwrap();
    assert_eq!(event.id(), &None);
    assert!(event.data().is_empty());
}

#[test]
fn sse_empty_chunk_is_empty_event() {
    let event = ServerEvent::parse(b"").unwrap();
    assert_eq!(event.id(), &None);
    assert_eq!(event.event(), &None);
    assert_eq!(event.retry(), &None);
    assert!(event.data().is_empty());
}

#[test]
fn sse_retry_numbers() {
    assert_eq!(ServerEvent::parse(b"retry: +15\n").unwrap().retry(), &Some(15));
    assert_eq!(
        ServerEvent::parse(b"retry: 18446744073709551615\n").unwrap().retry(),
        &Some(u64::MAX)
    );
    assert!(ServerEvent::try_parse(b"retry: 18446744073709551616\n").is_none());
    assert!(ServerEvent::try_parse(b"retry: abc\n").is_none());
    assert!(ServerEvent::try_parse(b"retry: \n").is_none());
    assert!(ServerEvent::try_parse(b"retry: +\n").is_none());
    assert!(ServerEvent::try_parse(b"retry: -1\n").is_none());
    // a bad retry after the end of the event is not read
    assert!(ServerEvent::try_parse(b"data: [DONE]\nretry: x\n").is_some());
}

#[test]
fn sse_invalid_utf8_is_replaced() {
    let event = ServerEvent::parse(b"data: a\xffb\n").unwrap();
    assert_eq!(event.data(), &vec!["a\u{fffd}b".to_string()]);
}

#[test]
fn sse_new_and_add_data() {
    let mut event = ServerEvent::new();
    assert!(event.data().is_empty());
    event.add_data("one".to_string());
    event.add_data("two".to_string());
    assert_eq!(event.data(), &vec!["one".to_string(), "two".to_string()]);
    let d = ServerEvent::default();
    assert_eq!(d.id(), &None);
}

#[test]
fn sse_content_type_check() {
    assert_eq!(check_event_stream(Some(b"text/event-stream")), Ok(()));
    assert_eq!(check_event_stream(Some(b"text/event-stream; charset=utf-8")), Ok(()));
    assert_eq!(
        check_event_stream(None),
        Err(ClientError::Header { message: "Missing content type".to_string() })
    );
    let refused = Err(ClientError::Header {
        message: "Content type is not text/event-stream".to_string(),
    });
    assert_eq!(check_event_stream(Some(b"application/json")), refused);
    assert_eq!(check_event_stream(Some(b"text/event-stream\x01")), refused);
    assert_eq!(check_event_stream(Some(b"text/event-strea")), refused);
}

#[test]
fn sse_errors_carry_messages() {
    let e = SSEError::ReceiveEvent { message: "closed".to_string() };
    assert_eq!(e.message(), "closed".to_string());
    assert_eq!(DeboaExtrasError::from_sse(e.clone()), DeboaExtrasError::SSE(e));
}

#[test]
fn sse_chunks_ending_in_newline_concatenate() {
    let first: &[u8] = b"id: 5\nevent: tick\n";
    let second: &[u8] = b"data: a\ndata: b\n";
    let joined = [first, second].concat();
    let event = ServerEvent::parse(&joined).unwrap();
    assert_eq!(event.id(), &Some("5".to_string()));
    assert_eq!(event.event(), &Some("tick".to_string()));
    assert_eq!(event.data(), &vec!["a".to_string(), "b".to_string()]);
}
