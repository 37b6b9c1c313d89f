use rustweb::cgi::{cgi_get_plan, cgi_post_plan, decimal_bytes, body_chunks, PostDecision};
use rustweb::request::parse_request_line;
use rustweb::resolve::{resolve, MetaKind};

#[test]
fn decimal_rendering() {
    assert_eq!(decimal_bytes(0).as_slice(), b"0");
    assert_eq!(decimal_bytes(7).as_slice(), b"7");
    assert_eq!(decimal_bytes(42).as_slice(), b"42");
    assert_eq!(decimal_bytes(1024).as_slice(), b"1024");
    assert_eq!(decimal_bytes(2147483647).as_slice(), b"2147483647");
}

#[test]
fn chunks_sum_to_the_declared_length() {
    assert!(body_chunks(0).is_empty());
    assert_eq!(body_chunks(1000).as_slice(), &[1000]);
    let chunks = body_chunks(2500);
    assert_eq!(chunks.iter().map(|c| *c as u64).sum::<u64>(), 2500);
    assert!(chunks.iter().all(|c| 1 <= *c && *c <= 1024));
    assert_eq!(chunks.as_slice(), &[1024, 1024, 452]);
}

#[test]
fn get_plan_passes_query_through() {
    let req = parse_request_line(b"GET /cgi?x=1 HTTP/1.1").unwrap();
    let target = resolve(b"assets", b"/CGI", MetaKind::RegularFile { mode: 0o755 }, MetaKind::Absent)
        .unwrap();
    let plan = cgi_get_plan(&target, &req);
    assert_eq!(plan.program.as_slice(), b"assets/CGI");
    assert_eq!(plan.method.as_slice(), b"GET");
    assert_eq!(plan.query.as_ref().unwrap().as_slice(), b"X=1");
    assert!(plan.content_length.is_none());
}

#[test]
fn get_plan_without_query_sets_empty_query() {
    let req = parse_request_line(b"GET /cgi HTTP/1.1").unwrap();
    let target = resolve(b"assets", b"/CGI", MetaKind::RegularFile { mode: 0o755 }, MetaKind::Absent)
        .unwrap();
    let plan = cgi_get_plan(&target, &req);
    assert_eq!(plan.query.as_ref().unwrap().as_slice(), b"");
}

#[test]
fn post_without_content_length_is_refused() {
    let req = parse_request_line(b"POST /cgi HTTP/1.1").unwrap();
    let target = resolve(b"assets", b"/CGI", MetaKind::RegularFile { mode: 0o755 }, MetaKind::Absent)
        .unwrap();
    match cgi_post_plan(&target, &req, None) {
        PostDecision::BadRequest => {}
        PostDecision::Run(_) => panic!("a POST without a content length must be refused"),
    }
}

#[test]
fn post_plan_carries_the_declared_length() {
    let req = parse_request_line(b"POST /cgi HTTP/1.1").unwrap();
    let target = resolve(b"assets", b"/CGI", MetaKind::RegularFile { mode: 0o755 }, MetaKind::Absent)
        .unwrap();
    match cgi_post_plan(&target, &req, Some(5)) {
        PostDecision::Run(plan) => {
            assert_eq!(plan.program.as_slice(), b"assets/CGI");
            assert_eq!(plan.method.as_slice(), b"POST");
            assert!(plan.query.is_none());
            assert_eq!(plan.content_length, Some(5));
            assert_eq!(decimal_bytes(plan.content_length.unwrap()).as_slice(), b"5");
        }
        PostDecision::BadRequest => panic!("a usable content length must yield a plan"),
    }
}
