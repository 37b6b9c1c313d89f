use rustweb::response::{respond, cgi_success_response, Status};
use rustweb::cgi::on_cgi_outcome;

const HEAD_200: &[u8] = b"HTTP/1.1 200 OK\r\nServer: rustweb/0.1.0\r\nContent-Type: text/html\r\n\r\n";

#[test]
fn success_envelope_carries_body_verbatim() {
    let body = b"<h1>hello</h1>";
    let r = respond(Status::Success, body);
    let mut expected = HEAD_200.to_vec();
    expected.extend_from_slice(body);
    assert_eq!(r.as_slice(), expected.as_slice());
}

#[test]
fn not_found_envelope() {
    let asset = b"<html>not found</html>";
    let r = respond(Status::NotFound, asset);
    let mut expected =
        b"HTTP/1.1 404 NOT FOUND\r\nServer: rustweb/0.1.0\r\nContent-Type: text/html\r\n\r\n"
            .to_vec();
    expected.extend_from_slice(asset);
    assert_eq!(r.as_slice(), expected.as_slice());
}

#[test]
fn bad_request_envelope() {
    let r = respond(Status::BadRequest, b"x");
    assert!(r.starts_with(b"HTTP/1.1 400 Bad Request\r\nServer: rustweb/0.1.0\r\n"));
    assert!(r.ends_with(b"Content-Type: text/html\r\n\r\nx"));
}

#[test]
fn internal_error_envelope() {
    let r = respond(Status::InternalError, b"y");
    assert!(r.starts_with(b"HTTP/1.1 500 Internal Server Error\r\n"));
    assert!(r.ends_with(b"\r\n\r\ny"));
}

#[test]
fn not_implemented_envelope() {
    let r = respond(Status::NotImplemented, b"z");
    assert!(r.starts_with(b"HTTP/1.1 501 Method Not Implemented\r\n"));
    assert!(r.ends_with(b"\r\n\r\nz"));
}

#[test]
fn cgi_success_has_no_extra_headers() {
    let stdout = b"Content-Type: text/plain\r\n\r\nout";
    let r = cgi_success_response(stdout);
    let mut expected = b"HTTP/1.1 200 OK\r\nServer: rustweb/0.1.0\r\n".to_vec();
    expected.extend_from_slice(stdout);
    assert_eq!(r.as_slice(), expected.as_slice());
}

#[test]
fn cgi_outcome_success_relays_stdout() {
    let r = on_cgi_outcome(true, b"OUT", b"unused");
    let mut expected = b"HTTP/1.1 200 OK\r\nServer: rustweb/0.1.0\r\n".to_vec();
    expected.extend_from_slice(b"OUT");
    assert_eq!(r.as_slice(), expected.as_slice());
}

#[test]
fn cgi_outcome_failure_is_internal_error() {
    let asset = b"<html>cannot execute</html>";
    let r = on_cgi_outcome(false, b"ignored", asset);
    let mut expected =
        b"HTTP/1.1 500 Internal Server Error\r\nServer: rustweb/0.1.0\r\nContent-Type: text/html\r\n\r\n"
            .to_vec();
    expected.extend_from_slice(asset);
    assert_eq!(r.as_slice(), expected.as_slice());
}
