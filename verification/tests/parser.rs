use rustweb::request::{parse_request_line, is_supported_method};

#[test]
fn simple_get_line() {
    let req = parse_request_line(b"GET /index.html HTTP/1.1").unwrap();
    assert_eq!(req.method.as_slice(), b"GET");
    assert_eq!(req.path.as_slice(), b"/INDEX.HTML");
    assert!(req.query.is_none());
    assert_eq!(req.protocol.as_slice(), b"HTTP/1.1");
}

#[test]
fn lowercase_method_is_folded() {
    let req = parse_request_line(b"get /a http/1.1").unwrap();
    assert_eq!(req.method.as_slice(), b"GET");
    assert_eq!(req.path.as_slice(), b"/A");
    assert_eq!(req.protocol.as_slice(), b"HTTP/1.1");
}

#[test]
fn query_splits_at_first_question_mark() {
    let req = parse_request_line(b"GET /cgi?x=1&y=2 HTTP/1.1").unwrap();
    assert_eq!(req.path.as_slice(), b"/CGI");
    assert_eq!(req.query.as_ref().unwrap().as_slice(), b"X=1&Y=2");
    assert_eq!(req.protocol.as_slice(), b"HTTP/1.1");
}

#[test]
fn second_question_mark_stays_in_query() {
    let req = parse_request_line(b"GET /p?a?b HTTP/1.1").unwrap();
    assert_eq!(req.path.as_slice(), b"/P");
    assert_eq!(req.query.as_ref().unwrap().as_slice(), b"A?B");
}

#[test]
fn empty_query_is_still_present() {
    let req = parse_request_line(b"GET /p? HTTP/1.1").unwrap();
    assert_eq!(req.path.as_slice(), b"/P");
    assert_eq!(req.query.as_ref().unwrap().as_slice(), b"");
}

#[test]
fn unsupported_method_still_parses() {
    let req = parse_request_line(b"PUT /x HTTP/1.1").unwrap();
    assert_eq!(req.method.as_slice(), b"PUT");
    assert!(!is_supported_method(req.method.as_slice()));
}

#[test]
fn missing_target_fails() {
    assert!(parse_request_line(b"GET").is_none());
    assert!(parse_request_line(b"GET ").is_none());
    assert!(parse_request_line(b"").is_none());
}

#[test]
fn empty_path_fails() {
    assert!(parse_request_line(b"GET  HTTP/1.1").is_none());
    assert!(parse_request_line(b"GET ?x=1 HTTP/1.1").is_none());
}

#[test]
fn missing_protocol_parses_with_empty_protocol() {
    let req = parse_request_line(b"GET /x").unwrap();
    assert_eq!(req.path.as_slice(), b"/X");
    assert_eq!(req.protocol.as_slice(), b"");
}

#[test]
fn supported_methods() {
    assert!(is_supported_method(b"GET"));
    assert!(is_supported_method(b"POST"));
    assert!(!is_supported_method(b"PUT"));
    assert!(!is_supported_method(b"HEAD"));
    assert!(!is_supported_method(b"get"));
    assert!(!is_supported_method(b""));
}
