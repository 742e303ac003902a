use deboa_extras::errors::ClientError;
use deboa_extras::hook::redirect::{Redirect, RedirectAction, RedirectHook};

#[test]
fn non_redirect_is_answered() {
    let hook = RedirectHook::new((), 5);
    let mut run = hook.start();
    assert!(matches!(run.on_answer(200, Some(b"/elsewhere")), RedirectAction::Answer));
    assert!(matches!(run.on_answer(404, None), RedirectAction::Answer));
}

#[test]
fn redirect_without_location_is_answered() {
    let mut run = RedirectHook::new((), 5).start();
    assert!(matches!(run.on_answer(302, None), RedirectAction::Answer));
}

#[test]
fn redirects_are_followed_and_keep_body_only_for_307_308() {
    let mut run = RedirectHook::new((), 5).start();
    match run.on_answer(301, Some(b"https://example.com/a")) {
        RedirectAction::Follow { uri, keep_body } => {
            assert_eq!(uri.to_string(), "https://example.com/a");
            assert!(!keep_body);
        }
        _ => panic!("expected a redirect"),
    }
    match run.on_answer(307, Some(b"/b")) {
        RedirectAction::Follow { uri, keep_body } => {
            assert_eq!(uri.path(), "/b");
            assert!(keep_body);
        }
        _ => panic!("expected a redirect"),
    }
    match run.on_answer(308, Some(b"/c")) {
        RedirectAction::Follow { keep_body, .. } => assert!(keep_body),
        _ => panic!("expected a redirect"),
    }
}

#[test]
fn redirect_limit_exceeded() {
    let mut run = Redirect::new(2).chain(()).start();
    assert!(matches!(run.on_answer(302, Some(b"/1")), RedirectAction::Follow { .. }));
    assert!(matches!(run.on_answer(302, Some(b"/2")), RedirectAction::Follow { .. }));
    match run.on_answer(302, Some(b"/3")) {
        RedirectAction::Fail { error } => assert_eq!(
            error,
            ClientError::Send { message: "Redirect limit exceeded".to_string() }
        ),
        _ => panic!("expected the limit to be exceeded"),
    }
}

#[test]
fn zero_limit_answers_redirects() {
    let mut run = Redirect::new(0).chain(()).start();
    assert!(matches!(run.on_answer(301, Some(b"/x")), RedirectAction::Answer));
}

#[test]
fn invalid_location_header() {
    let mut run = Redirect::default().chain(()).start();
    match run.on_answer(302, Some(b"/caf\xc3\xa9")) {
        RedirectAction::Fail { error } => assert_eq!(
            error,
            ClientError::Header { message: "Invalid location header".to_string() }
        ),
        _ => panic!("expected an invalid header"),
    }
}

#[test]
fn invalid_uri() {
    let mut run = Redirect::default().chain(()).start();
    match run.on_answer(302, Some(b"http://a b")) {
        RedirectAction::Fail { error } => {
            let expected = "http://a b".parse::<http::Uri>().unwrap_err().to_string();
            assert_eq!(error, ClientError::UrlParse { message: expected })
        }
        _ => panic!("expected an invalid uri"),
    }
}

#[test]
fn default_limit_is_ten() {
    let mut run = Redirect::default().chain(()).start();
    for _ in 0..10 {
        assert!(matches!(run.on_answer(302, Some(b"/next")), RedirectAction::Follow { .. }));
    }
    assert!(matches!(run.on_answer(302, Some(b"/next")), RedirectAction::Fail { .. }));
}

#[test]
fn followed_uri_is_the_parsed_location() {
    let mut run = Redirect::default().chain(()).start();
    match run.on_answer(303, Some(b"https://example.com/next?x=1")) {
        RedirectAction::Follow { uri, keep_body } => {
            let expected: http::Uri = "https://example.com/next?x=1".parse().unwrap();
            assert_eq!(uri, expected);
            assert!(!keep_body);
        }
        _ => panic!("expected a redirect"),
    }
}
