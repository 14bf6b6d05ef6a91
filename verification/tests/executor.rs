use forge::error::AppError;
use forge::executor::{assemble_response, classify_body, parse_set_cookie, race_outcome};
use forge::response::{ResponseBody, ResponseState};

#[test]
fn test_parse_set_cookie_full() {
    let c = parse_set_cookie("session=abc123; Domain=example.com; Path=/app; HttpOnly");
    assert_eq!(c.name, "session");
    assert_eq!(c.value, "abc123");
    assert_eq!(c.domain, "example.com");
    assert_eq!(c.path, "/app");
}

#[test]
fn test_parse_set_cookie_defaults() {
    let c = parse_set_cookie("id=42");
    assert_eq!(c.name, "id");
    assert_eq!(c.value, "42");
    assert_eq!(c.domain, "");
    assert_eq!(c.path, "/");
}

#[test]
fn test_parse_set_cookie_no_equals() {
    let c = parse_set_cookie("oddball");
    assert_eq!(c.name, "oddball");
    assert_eq!(c.value, "");
    assert_eq!(c.path, "/");
}

#[test]
fn test_parse_set_cookie_trims_and_ignores_unknown() {
    let c = parse_set_cookie("  n  =  v  ; Secure; Max-Age=3600; Path=/x");
    assert_eq!(c.name, "n");
    assert_eq!(c.value, "v");
    assert_eq!(c.domain, "");
    assert_eq!(c.path, "/x");
}

#[test]
fn test_classify_json_pretty_printed() {
    let body = classify_body("application/json", &b"{\"a\":1}".to_vec());
    match body {
        ResponseBody::Text(t) => assert_eq!(t, "{\n  \"a\": 1\n}"),
        _ => panic!("expected text"),
    }
}

#[test]
fn test_classify_invalid_json_degrades_to_text() {
    // invalid JSON under a JSON content type still yields text, never an error
    let body = classify_body("application/json; charset=utf-8", &b"{not json".to_vec());
    match body {
        ResponseBody::Text(t) => assert_eq!(t, "{not json"),
        _ => panic!("expected text"),
    }
}

#[test]
fn test_classify_textual_lossy() {
    let mut bytes = b"ab".to_vec();
    bytes.push(0xFF);
    let body = classify_body("text/plain", &bytes);
    match body {
        ResponseBody::Text(t) => assert_eq!(t, "ab\u{FFFD}"),
        _ => panic!("expected text"),
    }
}

#[test]
fn test_classify_empty_and_binary() {
    assert!(matches!(
        classify_body("application/octet-stream", &Vec::new()),
        ResponseBody::Empty
    ));
    let bytes = vec![0u8, 159, 146, 150];
    match classify_body("application/octet-stream", &bytes) {
        ResponseBody::Binary(b) => assert_eq!(b, bytes),
        _ => panic!("expected binary"),
    }
}

#[test]
fn test_classify_unknown_type_valid_utf8() {
    let body = classify_body("application/x-thing", &b"hello".to_vec());
    match body {
        ResponseBody::Text(t) => assert_eq!(t, "hello"),
        _ => panic!("expected text"),
    }
}

#[test]
fn test_assemble_response_fields() {
    let bytes = b"{\"ok\":true}".to_vec();
    let resp = assemble_response(
        201,
        "Created".to_string(),
        vec![("server".to_string(), "t".to_string())],
        "application/json",
        &vec!["sid=1; Path=/p".to_string(), "t=2".to_string()],
        &bytes,
        30,
        75,
        1700000000000,
    );
    assert_eq!(resp.status, 201);
    assert_eq!(resp.status_text, "Created");
    assert_eq!(resp.size_bytes, bytes.len());
    assert_eq!(resp.timing.time_to_first_byte_ms, 30);
    assert_eq!(resp.timing.download_ms, 45);
    assert_eq!(resp.timing.total_ms, 75);
    assert_eq!(resp.timing.dns_lookup_ms, 0);
    assert_eq!(resp.received_at, 1700000000000);
    assert_eq!(resp.scroll_offset, 0);
    assert_eq!(resp.cookies.len(), 2);
    assert_eq!(resp.cookies[0].name, "sid");
    assert_eq!(resp.cookies[0].path, "/p");
    assert_eq!(resp.cookies[1].name, "t");
    assert_eq!(resp.cookies[1].path, "/");
    match resp.body {
        ResponseBody::Text(t) => assert_eq!(t, "{\n  \"ok\": true\n}"),
        _ => panic!("expected text"),
    }
}

#[test]
fn test_race_cancellation_wins() {
    // a finished network result is discarded once cancellation won
    let net = Ok(ResponseState::default());
    let out = race_outcome(true, net);
    assert!(matches!(out, Err(AppError::Cancelled)));
}

#[test]
fn test_race_network_wins() {
    let mut resp = ResponseState::default();
    resp.status = 200;
    let out = race_outcome(false, Ok(resp));
    assert_eq!(out.unwrap().status, 200);
}

#[test]
fn test_error_messages() {
    assert_eq!(AppError::Http("boom".to_string()).message(), "HTTP error: boom");
    assert_eq!(AppError::Io("io".to_string()).message(), "IO error: io");
    assert_eq!(AppError::Json("j".to_string()).message(), "JSON error: j");
    assert_eq!(AppError::Timeout.message(), "Request timed out");
    assert_eq!(AppError::Cancelled.message(), "Request cancelled");
    assert_eq!(AppError::Other("x".to_string()).message(), "x");
}
