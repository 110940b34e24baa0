use driftwood::callback::{
    callback_from_pairs, callback_response, parse_callback, request_path, CallbackListener,
    ListenerAction, ListenerEvent, ListenerState, CALLBACK_PORT, CALLBACK_TIMEOUT_MILLIS,
    POLL_INTERVAL_MILLIS,
};
use driftwood::netlify::LoginError;

fn pairs(items: &[(&str, &str)]) -> Vec<(String, String)> {
    items.iter().map(|(k, v)| (k.to_string(), v.to_string())).collect()
}

fn connection(request: &str) -> ListenerEvent {
    ListenerEvent::Connection { request: request.to_string() }
}

#[test]
fn request_path_is_second_word_of_first_line() {
    assert_eq!(
        request_path("GET /callback?code=abc&state=xyz HTTP/1.1\r\nHost: localhost\r\n\r\n"),
        Some("/callback?code=abc&state=xyz".to_string())
    );
    assert_eq!(request_path("GET   /a\tHTTP/1.1"), Some("/a".to_string()));
    assert_eq!(request_path("  GET /x"), Some("/x".to_string()));
}

#[test]
fn request_path_needs_two_words_on_the_first_line() {
    assert_eq!(request_path(""), None);
    assert_eq!(request_path("GET"), None);
    assert_eq!(request_path("GET\n/second-line HTTP/1.1"), None);
    assert_eq!(request_path("\n GET /x"), None);
    assert_eq!(request_path("   \r\n"), None);
}

#[test]
fn request_path_is_what_std_gives() {
    for text in ["GET /a HTTP/1.1\r\nX: y", "a b", "a\u{a0}b c\nd", " \t x  y\r\n", "one", "a\rb", ""] {
        let expected = text
            .lines()
            .next()
            .and_then(|line| line.split_whitespace().nth(1))
            .map(|path| path.to_string());
        assert_eq!(request_path(text), expected, "{:?}", text);
    }
}

#[test]
fn request_path_of_padded_buffer() {
    let mut text = String::from("GET /cb?code=1&state=2 HTTP/1.1\r\n\r\n");
    while text.len() < 1024 {
        text.push('\0');
    }
    assert_eq!(request_path(&text), Some("/cb?code=1&state=2".to_string()));
}

#[test]
fn callback_takes_last_code_and_state() {
    let callback = callback_from_pairs(&pairs(&[
        ("code", "first"),
        ("state", "s1"),
        ("other", "x"),
        ("code", "second"),
    ]))
    .unwrap();
    assert_eq!(callback.authorization_code, "second");
    assert_eq!(callback.state, "s1");
}

#[test]
fn callback_needs_both_fields_non_empty() {
    assert!(callback_from_pairs(&pairs(&[("code", "abc")])).is_none());
    assert!(callback_from_pairs(&pairs(&[("state", "xyz")])).is_none());
    assert!(callback_from_pairs(&pairs(&[])).is_none());
    assert!(callback_from_pairs(&pairs(&[("code", ""), ("state", "xyz")])).is_none());
    assert!(callback_from_pairs(&pairs(&[("code", "abc"), ("state", "")])).is_none());
    assert!(
        callback_from_pairs(&pairs(&[("code", "abc"), ("state", "x"), ("state", "")])).is_none()
    );
    assert!(callback_from_pairs(&pairs(&[("Code", "abc"), ("state", "xyz")])).is_none());
}

#[test]
fn parse_callback_reads_query_of_request() {
    let callback = parse_callback("GET /?code=abc&state=xyz HTTP/1.1\r\n\r\n").unwrap();
    assert_eq!(callback.authorization_code, "abc");
    assert_eq!(callback.state, "xyz");
    let callback = parse_callback("GET /any/path?state=s&x=1&code=c#frag HTTP/1.1").unwrap();
    assert_eq!(callback.authorization_code, "c");
    assert_eq!(callback.state, "s");
}

#[test]
fn parse_callback_decodes_the_query() {
    let callback = parse_callback("GET /?code=a%20b%2Bc&state=x+y HTTP/1.1\r\n").unwrap();
    assert_eq!(callback.authorization_code, "a b+c");
    assert_eq!(callback.state, "x y");
}

#[test]
fn parse_callback_rejects_what_carries_no_callback() {
    assert!(parse_callback("GET /?code=abc HTTP/1.1\r\n").is_none());
    assert!(parse_callback("GET / HTTP/1.1\r\n").is_none());
    assert!(parse_callback("").is_none());
    assert!(parse_callback("GET").is_none());
    assert!(parse_callback("GET :9999999/?code=a&state=b HTTP/1.1").is_none());
}

#[test]
fn callback_response_frames_the_page() {
    assert_eq!(
        callback_response("<p>ok</p>"),
        "HTTP/1.1 200 OK\r\nContent-Type: text/html; charset=UTF-8\r\nContent-Length: 9\r\n\r\n<p>ok</p>"
    );
    assert_eq!(
        callback_response(""),
        "HTTP/1.1 200 OK\r\nContent-Type: text/html; charset=UTF-8\r\nContent-Length: 0\r\n\r\n"
    );
    let body = "é".repeat(60);
    assert!(callback_response(&body).contains("Content-Length: 120\r\n\r\n"));
}

#[test]
fn listener_constants() {
    assert_eq!(CALLBACK_TIMEOUT_MILLIS, 15000);
    assert_eq!(POLL_INTERVAL_MILLIS, 100);
    assert_eq!(CALLBACK_PORT, 8000);
}

#[test]
fn listener_without_connection_times_out_at_the_deadline() {
    let mut listener = CallbackListener::new(CALLBACK_TIMEOUT_MILLIS);
    let mut elapsed = 0;
    while elapsed < CALLBACK_TIMEOUT_MILLIS {
        let (next, action) = listener.step(ListenerEvent::NoConnection, elapsed);
        assert_eq!(action, ListenerAction::Sleep);
        assert!(matches!(next.state, ListenerState::Listening));
        assert!(next.outcome().is_none());
        listener = next;
        elapsed += POLL_INTERVAL_MILLIS;
    }
    assert_eq!(elapsed, CALLBACK_TIMEOUT_MILLIS);
    let (listener, action) = listener.step(ListenerEvent::NoConnection, elapsed);
    assert_eq!(action, ListenerAction::Fail);
    assert!(matches!(listener.state, ListenerState::TimedOut));
    assert!(matches!(listener.outcome(), Some(Err(LoginError::TimeoutError))));
    let (listener, action) =
        listener.step(connection("GET /?code=a&state=b HTTP/1.1"), elapsed + 1);
    assert_eq!(action, ListenerAction::Fail);
    assert!(matches!(listener.state, ListenerState::TimedOut));
}

#[test]
fn listener_ignores_connection_without_state_and_honors_the_next() {
    let listener = CallbackListener::new(15000);
    let (listener, action) = listener.step(connection("GET /?code=abc HTTP/1.1\r\n\r\n"), 500);
    assert_eq!(action, ListenerAction::Poll);
    assert!(matches!(listener.state, ListenerState::Listening));
    let (listener, action) =
        listener.step(connection("GET /?code=abc&state=xyz HTTP/1.1\r\n\r\n"), 900);
    assert_eq!(action, ListenerAction::Respond);
    match &listener.state {
        ListenerState::Received { callback } => {
            assert_eq!(callback.authorization_code, "abc");
            assert_eq!(callback.state, "xyz");
        }
        other => panic!("unexpected: {:?}", other),
    }
    assert!(listener.outcome().is_none());
    let (listener, action) = listener.step(ListenerEvent::ResponseWritten, 901);
    assert_eq!(action, ListenerAction::Deliver);
    match listener.outcome() {
        Some(Ok(callback)) => {
            assert_eq!(callback.authorization_code, "abc");
            assert_eq!(callback.state, "xyz");
        }
        other => panic!("unexpected: {:?}", other),
    }
}

#[test]
fn listener_is_one_shot() {
    let listener = CallbackListener::new(15000);
    let (listener, _) = listener.step(connection("GET /?code=one&state=s HTTP/1.1"), 10);
    let (listener, _) = listener.step(ListenerEvent::ResponseWritten, 11);
    let (listener, action) = listener.step(connection("GET /?code=two&state=t HTTP/1.1"), 12);
    assert_eq!(action, ListenerAction::Deliver);
    match &listener.state {
        ListenerState::Done { callback } => assert_eq!(callback.authorization_code, "one"),
        other => panic!("unexpected: {:?}", other),
    }
    let (listener, action) = listener.step(ListenerEvent::NoConnection, 20000);
    assert_eq!(action, ListenerAction::Deliver);
    assert!(matches!(listener.state, ListenerState::Done { .. }));
}

#[test]
fn listener_reports_socket_failure() {
    let listener = CallbackListener::new(15000);
    let (listener, action) = listener.step(ListenerEvent::Unreadable, 5);
    assert_eq!(action, ListenerAction::Poll);
    let (listener, action) =
        listener.step(ListenerEvent::SocketError { reason: "accept failed".to_string() }, 6);
    assert_eq!(action, ListenerAction::Fail);
    match listener.outcome() {
        Some(Err(LoginError::IoError(reason))) => assert_eq!(reason, "accept failed"),
        other => panic!("unexpected: {:?}", other),
    }
}

#[test]
fn callback_at_the_deadline_is_too_late() {
    let listener = CallbackListener::new(1000);
    let (listener, action) = listener.step(connection("GET /?code=a&state=b HTTP/1.1"), 1000);
    assert_eq!(action, ListenerAction::Fail);
    assert!(matches!(listener.state, ListenerState::TimedOut));
    let listener = CallbackListener::new(1000);
    let (listener, action) = listener.step(connection("GET /?code=a&state=b HTTP/1.1"), 999);
    assert_eq!(action, ListenerAction::Respond);
    assert!(matches!(listener.state, ListenerState::Received { .. }));
}
