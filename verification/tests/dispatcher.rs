use rustweb::dispatch::{on_request_line, on_target, LineDecision, TargetDecision};
use rustweb::request::parse_request_line;
use rustweb::resolve::{resolve, MetaKind};
use rustweb::response::{respond, Status};

#[test]
fn unsupported_method_is_not_implemented() {
    match on_request_line(b"DELETE /x HTTP/1.1") {
        LineDecision::NotImplemented => {}
        LineDecision::Dispatch { .. } => panic!("DELETE must not be dispatched"),
    }
    match on_request_line(b"put /x HTTP/1.1") {
        LineDecision::NotImplemented => {}
        LineDecision::Dispatch { .. } => panic!("PUT must not be dispatched"),
    }
}

#[test]
fn unparseable_line_is_not_implemented() {
    match on_request_line(b"") {
        LineDecision::NotImplemented => {}
        LineDecision::Dispatch { .. } => panic!("an empty line must not be dispatched"),
    }
    match on_request_line(b"GET") {
        LineDecision::NotImplemented => {}
        LineDecision::Dispatch { .. } => panic!("a lone method must not be dispatched"),
    }
}

#[test]
fn get_and_post_are_dispatched() {
    match on_request_line(b"GET /a HTTP/1.1") {
        LineDecision::Dispatch { req } => assert_eq!(req.method.as_slice(), b"GET"),
        LineDecision::NotImplemented => panic!("GET must be dispatched"),
    }
    match on_request_line(b"post /a HTTP/1.1") {
        LineDecision::Dispatch { req } => assert_eq!(req.method.as_slice(), b"POST"),
        LineDecision::NotImplemented => panic!("POST must be dispatched"),
    }
}

#[test]
fn unresolved_target_is_not_found() {
    let req = parse_request_line(b"GET /nope HTTP/1.1").unwrap();
    match on_target(&req, None) {
        TargetDecision::NotFound => {}
        _ => panic!("an unresolved URL must answer 404"),
    }
}

#[test]
fn plain_file_is_served_statically() {
    let req = parse_request_line(b"GET /page.html HTTP/1.1").unwrap();
    let target =
        resolve(b"assets", b"/PAGE.HTML", MetaKind::RegularFile { mode: 0o644 }, MetaKind::Absent);
    match on_target(&req, target) {
        TargetDecision::ServeStatic { path } => {
            assert_eq!(path.as_slice(), b"assets/PAGE.HTML");
        }
        _ => panic!("a plain file without a query must be served statically"),
    }
}

#[test]
fn executable_file_goes_to_cgi() {
    let req = parse_request_line(b"GET /script HTTP/1.1").unwrap();
    let target =
        resolve(b"assets", b"/SCRIPT", MetaKind::RegularFile { mode: 0o755 }, MetaKind::Absent);
    match on_target(&req, target) {
        TargetDecision::RunCgi { target } => {
            assert_eq!(target.path.as_slice(), b"assets/SCRIPT");
            assert!(target.is_executable);
        }
        _ => panic!("an executable file must go to CGI"),
    }
}

#[test]
fn query_string_forces_cgi_even_for_plain_files() {
    let req = parse_request_line(b"GET /page.html?x=1 HTTP/1.1").unwrap();
    let target =
        resolve(b"assets", b"/PAGE.HTML", MetaKind::RegularFile { mode: 0o644 }, MetaKind::Absent);
    match on_target(&req, target) {
        TargetDecision::RunCgi { target } => {
            assert!(!target.is_executable);
        }
        _ => panic!("a query string must force the CGI branch"),
    }
}

#[test]
fn served_file_reaches_the_client_verbatim() {
    // The whole static path, end to end: parse, resolve, decide, respond.
    let contents = b"<html><body>hi</body></html>";
    match on_request_line(b"GET /page.html HTTP/1.1") {
        LineDecision::Dispatch { req } => {
            let target = resolve(
                b"assets",
                req.path.as_slice(),
                MetaKind::RegularFile { mode: 0o644 },
                MetaKind::Absent,
            );
            match on_target(&req, target) {
                TargetDecision::ServeStatic { path } => {
                    assert_eq!(path.as_slice(), b"assets/PAGE.HTML");
                    let response = respond(Status::Success, contents);
                    let mut expected =
                        b"HTTP/1.1 200 OK\r\nServer: rustweb/0.1.0\r\nContent-Type: text/html\r\n\r\n"
                            .to_vec();
                    expected.extend_from_slice(contents);
                    assert_eq!(response.as_slice(), expected.as_slice());
                }
                _ => panic!("expected the static branch"),
            }
        }
        LineDecision::NotImplemented => panic!("expected a dispatch"),
    }
}
