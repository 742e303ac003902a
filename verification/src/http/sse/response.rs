//! Recognising a response as an event stream.
use crate::errors::ClientError;
use crate::headers::{all_visible_ascii, header_text};
use crate::mime::text_event_stream;
use crate::text::ascii_chars;
use vstd::prelude::*;

verus! {

/// Does `text` hold `part` somewhere?
pub open spec fn contains_text(text: Seq<char>, part: Seq<char>) -> bool {
    exists|k: int| 0 <= k && k + part.len() <= text.len() && #[trigger] text.subrange(k, k + part.len()) == part
}

/// Is `part` found at position `k` of `text`?
fn found_at(text: &str, part: &str, k: usize) -> (r: bool)
    requires
        k + part@.len() <= text@.len() <= usize::MAX,
    ensures
        r == (text@.subrange(k as int, k + part@.len()) == part@),
{
    let n = part.unicode_len();
    let mut i: usize = 0;
    while i < n
        invariant
            n == part@.len(),
            k + n <= text@.len() <= usize::MAX,
            i <= n,
            forall|j: int| 0 <= j < i ==> text@[k + j] == part@[j],
        decreases n - i,
    {
        if text.get_char(k + i) != part.get_char(i) {
            assert(text@.subrange(k as int, k + part@.len())[i as int] != part@[i as int]);
            return false;
        }
        i = i + 1;
    }
    assert(text@.subrange(k as int, k + part@.len()) =~= part@);
    true
}

/// Does `text` hold `part` somewhere?
pub fn contains(text: &str, part: &str) -> (r: bool)
    ensures
        r == contains_text(text@, part@),
{
    let n = text.unicode_len();
    let m = part.unicode_len();
    if m > n {
        return false;
    }
    if m == 0 {
        assert(text@.subrange(0int, 0int + part@.len()) =~= part@);
        return true;
    }
    let mut k: usize = 0;
    while k <= n - m
        invariant
            n == text@.len(),
            m == part@.len(),
            0 < m <= n,
            k <= n - m + 1,
            forall|j: int| 0 <= j < k ==> #[trigger] text@.subrange(j, j + m) != part@,
        decreases n - m + 1 - k,
    {
        if found_at(text, part, k) {
            return true;
        }
        k = k + 1;
    }
    false
}

/// The message of a response refused as an event stream.
pub open spec fn not_event_stream_message() -> Seq<char> {
    "Content type is not text/event-stream"@
}

/// Checks that a response whose `Content-Type` header holds `content_type`
/// (if it has one) is an event stream: the header is there, is visible
/// ASCII, and holds `text/event-stream`.
pub fn check_event_stream(content_type: Option<&[u8]>) -> (r: Result<(), ClientError>)
    ensures
        content_type is None ==> (r matches Err(ClientError::Header { message }) && message@
            == "Missing content type"@),
        content_type matches Some(v) ==> {
            if all_visible_ascii(v@) && contains_text(ascii_chars(v@), "text/event-stream"@) {
                r is Ok
            } else {
                r matches Err(ClientError::Header { message }) && message@
                    == not_event_stream_message()
            }
        },
{
    match content_type {
        None => Err(ClientError::Header { message: "Missing content type".to_owned() }),
        Some(v) => match header_text(v) {
            None => Err(
                ClientError::Header { message: "Content type is not text/event-stream".to_owned() },
            ),
            Some(text) => {
                if contains(text.as_str(), text_event_stream()) {
                    Ok(())
                } else {
                    Err(
                        ClientError::Header {
                            message: "Content type is not text/event-stream".to_owned(),
                        },
                    )
                }
            },
        },
    }
}

} // verus!
