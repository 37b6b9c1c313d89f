//! Response envelopes.
//!
//! Every response the server sends opens with a status line, the fixed
//! server-identification header and, on all branches but the CGI success
//! branch, a `Content-Type: text/html` header and a blank line; the body
//! follows verbatim.  The spec functions below pin the exact bytes of each
//! envelope, so a caller's contract says byte for byte what reaches the
//! client.

use vstd::prelude::*;
use crate::bytes::append_bytes;

verus! {

/// The status of a response: the one success status and the four error
/// envelopes the server can send.
#[derive(Clone, Copy, PartialEq, Eq, Structural, Debug)]
pub enum Status {
    /// 200, for a served file or a successful CGI run.
    Success,
    /// 400, for a POST without a usable `Content-Length`.
    BadRequest,
    /// 404, for a URL path that resolves to no regular file.
    NotFound,
    /// 500, for a CGI target that cannot be spawned or exits nonzero.
    InternalError,
    /// 501, for a method other than GET or POST.
    NotImplemented,
}

/// The `HTTP/1.1 200 OK` status line.
pub open spec fn status_line_success() -> Seq<u8> {
    seq![72u8, 84u8, 84u8, 80u8, 47u8, 49u8, 46u8, 49u8, 32u8, 50u8, 48u8, 48u8, 32u8, 79u8, 75u8, 13u8, 10u8]
}

/// The 400 status line.
pub open spec fn status_line_bad_request() -> Seq<u8> {
    seq![72u8, 84u8, 84u8, 80u8, 47u8, 49u8, 46u8, 49u8, 32u8, 52u8, 48u8, 48u8, 32u8, 66u8, 97u8, 100u8, 32u8, 82u8, 101u8, 113u8, 117u8, 101u8, 115u8, 116u8, 13u8, 10u8]
}

/// The 404 status line.
pub open spec fn status_line_not_found() -> Seq<u8> {
    seq![72u8, 84u8, 84u8, 80u8, 47u8, 49u8, 46u8, 49u8, 32u8, 52u8, 48u8, 52u8, 32u8, 78u8, 79u8, 84u8, 32u8, 70u8, 79u8, 85u8, 78u8, 68u8, 13u8, 10u8]
}

/// The 500 status line.
pub open spec fn status_line_internal_error() -> Seq<u8> {
    seq![72u8, 84u8, 84u8, 80u8, 47u8, 49u8, 46u8, 49u8, 32u8, 53u8, 48u8, 48u8, 32u8, 73u8, 110u8, 116u8, 101u8, 114u8, 110u8, 97u8, 108u8, 32u8, 83u8, 101u8, 114u8, 118u8, 101u8, 114u8, 32u8, 69u8, 114u8, 114u8, 111u8, 114u8, 13u8, 10u8]
}

/// The 501 status line.
pub open spec fn status_line_not_implemented() -> Seq<u8> {
    seq![72u8, 84u8, 84u8, 80u8, 47u8, 49u8, 46u8, 49u8, 32u8, 53u8, 48u8, 49u8, 32u8, 77u8, 101u8, 116u8, 104u8, 111u8, 100u8, 32u8, 78u8, 111u8, 116u8, 32u8, 73u8, 109u8, 112u8, 108u8, 101u8, 109u8, 101u8, 110u8, 116u8, 101u8, 100u8, 13u8, 10u8]
}

/// The fixed server-identification header.
pub open spec fn server_header() -> Seq<u8> {
    seq![83u8, 101u8, 114u8, 118u8, 101u8, 114u8, 58u8, 32u8, 114u8, 117u8, 115u8, 116u8, 119u8, 101u8, 98u8, 47u8, 48u8, 46u8, 49u8, 46u8, 48u8, 13u8, 10u8]
}

/// The fixed content-type header: every body is announced as HTML.
pub open spec fn content_type_header() -> Seq<u8> {
    seq![67u8, 111u8, 110u8, 116u8, 101u8, 110u8, 116u8, 45u8, 84u8, 121u8, 112u8, 101u8, 58u8, 32u8, 116u8, 101u8, 120u8, 116u8, 47u8, 104u8, 116u8, 109u8, 108u8, 13u8, 10u8]
}

/// The empty line that separates headers from the body.
pub open spec fn blank_line() -> Seq<u8> {
    seq![13u8, 10u8]
}

/// The status line for a given status.
pub open spec fn status_line(status: Status) -> Seq<u8> {
    match status {
        Status::Success => status_line_success(),
        Status::BadRequest => status_line_bad_request(),
        Status::NotFound => status_line_not_found(),
        Status::InternalError => status_line_internal_error(),
        Status::NotImplemented => status_line_not_implemented(),
    }
}

/// The head of a full envelope: status line, server header, content-type
/// header, blank line.  The body follows it unchanged.
pub open spec fn envelope_head(status: Status) -> Seq<u8> {
    status_line(status) + server_header() + content_type_header() + blank_line()
}

/// The head of a successful CGI response: status line and server header
/// only.  The subprocess is trusted to emit its own content-type header and
/// blank line at the front of its output.
pub open spec fn cgi_head() -> Seq<u8> {
    status_line_success() + server_header()
}

fn push_status_line_success(v: &mut Vec<u8>)
    ensures
        final(v)@ == old(v)@ + status_line_success(),
{
    v.push(72u8);
    v.push(84u8);
    v.push(84u8);
    v.push(80u8);
    v.push(47u8);
    v.push(49u8);
    v.push(46u8);
    v.push(49u8);
    v.push(32u8);
    v.push(50u8);
    v.push(48u8);
    v.push(48u8);
    v.push(32u8);
    v.push(79u8);
    v.push(75u8);
    v.push(13u8);
    v.push(10u8);
    proof {
        assert(v@ =~= old(v)@ + status_line_success());
    }
}

fn push_status_line_bad_request(v: &mut Vec<u8>)
    ensures
        final(v)@ == old(v)@ + status_line_bad_request(),
{
    v.push(72u8);
    v.push(84u8);
    v.push(84u8);
    v.push(80u8);
    v.push(47u8);
    v.push(49u8);
    v.push(46u8);
    v.push(49u8);
    v.push(32u8);
    v.push(52u8);
    v.push(48u8);
    v.push(48u8);
    v.push(32u8);
    v.push(66u8);
    v.push(97u8);
    v.push(100u8);
    v.push(32u8);
    v.push(82u8);
    v.push(101u8);
    v.push(113u8);
    v.push(117u8);
    v.push(101u8);
    v.push(115u8);
    v.push(116u8);
    v.push(13u8);
    v.push(10u8);
    proof {
        assert(v@ =~= old(v)@ + status_line_bad_request());
    }
}

fn push_status_line_not_found(v: &mut Vec<u8>)
    ensures
        final(v)@ == old(v)@ + status_line_not_found(),
{
    v.push(72u8);
    v.push(84u8);
    v.push(84u8);
    v.push(80u8);
    v.push(47u8);
    v.push(49u8);
    v.push(46u8);
    v.push(49u8);
    v.push(32u8);
    v.push(52u8);
    v.push(48u8);
    v.push(52u8);
    v.push(32u8);
    v.push(78u8);
    v.push(79u8);
    v.push(84u8);
    v.push(32u8);
    v.push(70u8);
    v.push(79u8);
    v.push(85u8);
    v.push(78u8);
    v.push(68u8);
    v.push(13u8);
    v.push(10u8);
    proof {
        assert(v@ =~= old(v)@ + status_line_not_found());
    }
}

fn push_status_line_internal_error(v: &mut Vec<u8>)
    ensures
        final(v)@ == old(v)@ + status_line_internal_error(),
{
    v.push(72u8);
    v.push(84u8);
    v.push(84u8);
    v.push(80u8);
    v.push(47u8);
    v.push(49u8);
    v.push(46u8);
    v.push(49u8);
    v.push(32u8);
    v.push(53u8);
    v.push(48u8);
    v.push(48u8);
    v.push(32u8);
    v.push(73u8);
    v.push(110u8);
    v.push(116u8);
    v.push(101u8);
    v.push(114u8);
    v.push(110u8);
    v.push(97u8);
    v.push(108u8);
    v.push(32u8);
    v.push(83u8);
    v.push(101u8);
    v.push(114u8);
    v.push(118u8);
    v.push(101u8);
    v.push(114u8);
    v.push(32u8);
    v.push(69u8);
    v.push(114u8);
    v.push(114u8);
    v.push(111u8);
    v.push(114u8);
    v.push(13u8);
    v.push(10u8);
    proof {
        assert(v@ =~= old(v)@ + status_line_internal_error());
    }
}

fn push_status_line_not_implemented(v: &mut Vec<u8>)
    ensures
        final(v)@ == old(v)@ + status_line_not_implemented(),
{
    v.push(72u8);
    v.push(84u8);
    v.push(84u8);
    v.push(80u8);
    v.push(47u8);
    v.push(49u8);
    v.push(46u8);
    v.push(49u8);
    v.push(32u8);
    v.push(53u8);
    v.push(48u8);
    v.push(49u8);
    v.push(32u8);
    v.push(77u8);
    v.push(101u8);
    v.push(116u8);
    v.push(104u8);
    v.push(111u8);
    v.push(100u8);
    v.push(32u8);
    v.push(78u8);
    v.push(111u8);
    v.push(116u8);
    v.push(32u8);
    v.push(73u8);
    v.push(109u8);
    v.push(112u8);
    v.push(108u8);
    v.push(101u8);
    v.push(109u8);
    v.push(101u8);
    v.push(110u8);
    v.push(116u8);
    v.push(101u8);
    v.push(100u8);
    v.push(13u8);
    v.push(10u8);
    proof {
        assert(v@ =~= old(v)@ + status_line_not_implemented());
    }
}

fn push_server_header(v: &mut Vec<u8>)
    ensures
        final(v)@ == old(v)@ + server_header(),
{
    v.push(83u8);
    v.push(101u8);
    v.push(114u8);
    v.push(118u8);
    v.push(101u8);
    v.push(114u8);
    v.push(58u8);
    v.push(32u8);
    v.push(114u8);
    v.push(117u8);
    v.push(115u8);
    v.push(116u8);
    v.push(119u8);
    v.push(101u8);
    v.push(98u8);
    v.push(47u8);
    v.push(48u8);
    v.push(46u8);
    v.push(49u8);
    v.push(46u8);
    v.push(48u8);
    v.push(13u8);
    v.push(10u8);
    proof {
        assert(v@ =~= old(v)@ + server_header());
    }
}

fn push_content_type_header(v: &mut Vec<u8>)
    ensures
        final(v)@ == old(v)@ + content_type_header(),
{
    v.push(67u8);
    v.push(111u8);
    v.push(110u8);
    v.push(116u8);
    v.push(101u8);
    v.push(110u8);
    v.push(116u8);
    v.push(45u8);
    v.push(84u8);
    v.push(121u8);
    v.push(112u8);
    v.push(101u8);
    v.push(58u8);
    v.push(32u8);
    v.push(116u8);
    v.push(101u8);
    v.push(120u8);
    v.push(116u8);
    v.push(47u8);
    v.push(104u8);
    v.push(116u8);
    v.push(109u8);
    v.push(108u8);
    v.push(13u8);
    v.push(10u8);
    proof {
        assert(v@ =~= old(v)@ + content_type_header());
    }
}

fn push_blank_line(v: &mut Vec<u8>)
    ensures
        final(v)@ == old(v)@ + blank_line(),
{
    v.push(13u8);
    v.push(10u8);
    proof {
        assert(v@ =~= old(v)@ + blank_line());
    }
}

fn push_status_line(v: &mut Vec<u8>, status: Status)
    ensures
        final(v)@ == old(v)@ + status_line(status),
{
    match status {
        Status::Success => push_status_line_success(v),
        Status::BadRequest => push_status_line_bad_request(v),
        Status::NotFound => push_status_line_not_found(v),
        Status::InternalError => push_status_line_internal_error(v),
        Status::NotImplemented => push_status_line_not_implemented(v),
    }
}

/// A complete response: the four-part envelope head for `status` followed by
/// `body` verbatim.  A 200 response built from a file's contents therefore
/// carries the file byte for byte; an error response carries its asset byte
/// for byte.
pub fn respond(status: Status, body: &[u8]) -> (r: Vec<u8>)
    ensures
        r@ == envelope_head(status) + body@,
{
    let mut v: Vec<u8> = Vec::new();
    push_status_line(&mut v, status);
    push_server_header(&mut v);
    push_content_type_header(&mut v);
    push_blank_line(&mut v);
    append_bytes(&mut v, body);
    proof {
        assert(v@ =~= envelope_head(status) + body@);
    }
    v
}

/// The response for a CGI run that exited successfully: status line, server
/// header, then the subprocess's standard output verbatim.  No content-type
/// header and no blank line are added; the subprocess supplies its own.
pub fn cgi_success_response(stdout: &[u8]) -> (r: Vec<u8>)
    ensures
        r@ == cgi_head() + stdout@,
{
    let mut v: Vec<u8> = Vec::new();
    push_status_line_success(&mut v);
    push_server_header(&mut v);
    append_bytes(&mut v, stdout);
    proof {
        assert(v@ =~= cgi_head() + stdout@);
    }
    v
}

} // verus!

