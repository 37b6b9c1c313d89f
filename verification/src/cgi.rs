//! Planning a CGI invocation and shaping its response.
//!
//! A CGI-eligible target is run as a subprocess.  The plan built here fixes
//! everything the runner needs: the program path, the `REQUEST_METHOD`
//! value, for GET the `QUERY_STRING` value (the parsed query, or empty),
//! and for POST the `CONTENT_LENGTH` value both as a number — so exactly
//! that many request-body bytes are relayed to the subprocess — and,
//! through [`decimal_bytes`], as the decimal string placed in the
//! environment.  A POST without a usable content length is refused before
//! any plan exists, so no subprocess can be spawned for it.
//!
//! [`body_chunks`] splits the body length into relay chunks of at most 1024
//! bytes whose sum is exactly the declared length, and [`on_cgi_outcome`]
//! shapes the final response: the subprocess's output verbatim behind the
//! success head when it exited cleanly, the 500 envelope otherwise.

use vstd::prelude::*;
use crate::bytes::copy_bytes;
use crate::request::ParsedRequest;
use crate::resolve::ResolvedTarget;
use crate::response::{Status, envelope_head, cgi_head, respond, cgi_success_response};

verus! {

/// Everything the runner needs to spawn one CGI subprocess.
pub struct CgiPlan {
    /// The filesystem path to execute.
    pub program: Vec<u8>,
    /// The `REQUEST_METHOD` environment value.
    pub method: Vec<u8>,
    /// The `QUERY_STRING` environment value; set exactly for GET requests.
    pub query: Option<Vec<u8>>,
    /// The request-body byte count, for POST requests: the `CONTENT_LENGTH`
    /// environment value and the number of bytes to relay to the
    /// subprocess's input.
    pub content_length: Option<u32>,
}

/// The `QUERY_STRING` value a request yields: its query, or empty.
pub open spec fn query_env_value(query: Option<Seq<u8>>) -> Seq<u8> {
    match query {
        Option::Some(q) => q,
        Option::None => Seq::empty(),
    }
}

/// Plan a GET invocation: the resolved path becomes the program, the
/// method is passed through, `QUERY_STRING` is the query or empty, and no
/// body is relayed.
pub fn cgi_get_plan(target: &ResolvedTarget, req: &ParsedRequest) -> (p: CgiPlan)
    ensures
        p.program@ == target.path@,
        p.method@ == req.method@,
        match p.query {
            Option::Some(q) => q@ == query_env_value(req@.query),
            Option::None => false,
        },
        p.content_length is None,
{
    let query = match &req.query {
        Option::Some(q) => copy_bytes(q.as_slice()),
        Option::None => Vec::new(),
    };
    CgiPlan {
        program: copy_bytes(target.path.as_slice()),
        method: copy_bytes(req.method.as_slice()),
        query: Some(query),
        content_length: None,
    }
}

/// What a POST request gets: a refusal, or a plan to run.
pub enum PostDecision {
    /// No usable `Content-Length` accompanied the request; answer 400 and
    /// spawn nothing.
    BadRequest,
    /// Run the subprocess as planned.
    Run(CgiPlan),
}

/// Plan a POST invocation from the scanned content length.  Without a
/// usable length the request is refused and no plan — hence no subprocess —
/// exists; with one, the plan relays exactly that many body bytes and sets
/// no `QUERY_STRING`.
pub fn cgi_post_plan(target: &ResolvedTarget, req: &ParsedRequest, content_length: Option<
    u32,
>) -> (d: PostDecision)
    ensures
        match content_length {
            Option::None => d is BadRequest,
            Option::Some(n) => match d {
                PostDecision::Run(p) => {
                    &&& p.program@ == target.path@
                    &&& p.method@ == req.method@
                    &&& p.query is None
                    &&& p.content_length == Some(n)
                },
                PostDecision::BadRequest => false,
            },
        },
{
    match content_length {
        Option::None => PostDecision::BadRequest,
        Option::Some(n) => PostDecision::Run(
            CgiPlan {
                program: copy_bytes(target.path.as_slice()),
                method: copy_bytes(req.method.as_slice()),
                query: None,
                content_length: Some(n),
            },
        ),
    }
}

/// The decimal digits of a number, most significant first.
pub open spec fn dec_bytes(n: nat) -> Seq<u8>
    decreases n,
{
    if n < 10 {
        seq![(48 + n) as u8]
    } else {
        dec_bytes(n / 10) + seq![(48 + n % 10) as u8]
    }
}

/// Render a number as its decimal digit string — the `CONTENT_LENGTH`
/// environment value for a body of `n` bytes.
pub fn decimal_bytes(n: u32) -> (r: Vec<u8>)
    ensures
        r@ == dec_bytes(n as nat),
    decreases n,
{
    if n < 10 {
        let mut v: Vec<u8> = Vec::new();
        v.push(48 + (n as u8));
        proof {
            assert(v@ =~= dec_bytes(n as nat));
        }
        v
    } else {
        let mut v = decimal_bytes(n / 10);
        v.push(48 + ((n % 10) as u8));
        proof {
            assert(v@ =~= dec_bytes(n as nat));
        }
        v
    }
}

/// The total byte count a chunk list relays.
pub open spec fn chunk_sum(chunks: Seq<u32>) -> int
    decreases chunks.len(),
{
    if chunks.len() == 0 {
        0
    } else {
        chunk_sum(chunks.drop_last()) + chunks.last()
    }
}

/// Split a body length into relay chunks: each between 1 and 1024 bytes,
/// and summing to exactly `n` — the subprocess receives exactly the
/// declared number of body bytes, no more and no fewer.
pub fn body_chunks(n: u32) -> (r: Vec<u32>)
    ensures
        chunk_sum(r@) == n,
        forall|i: int| 0 <= i < r@.len() ==> 1 <= #[trigger] r@[i] <= 1024,
{
    let mut v: Vec<u32> = Vec::new();
    let mut remaining = n;
    while remaining > 0
        invariant
            chunk_sum(v@) + remaining == n,
            forall|i: int| 0 <= i < v@.len() ==> 1 <= #[trigger] v@[i] <= 1024,
        decreases remaining,
    {
        let c = if remaining > 1024 {
            1024
        } else {
            remaining
        };
        let ghost prev = v@;
        v.push(c);
        remaining = remaining - c;
        proof {
            assert(v@.drop_last() =~= prev);
            assert(v@.last() == c);
        }
    }
    v
}

/// Shape the response to a finished CGI run.  A clean exit yields the
/// success head followed by the subprocess's standard output verbatim; a
/// spawn failure or nonzero exit yields the 500 envelope around the error
/// asset.
pub fn on_cgi_outcome(exit_ok: bool, stdout: &[u8], error_asset: &[u8]) -> (r: Vec<u8>)
    ensures
        exit_ok ==> r@ == cgi_head() + stdout@,
        !exit_ok ==> r@ == envelope_head(Status::InternalError) + error_asset@,
{
    if exit_ok {
        cgi_success_response(stdout)
    } else {
        respond(Status::InternalError, error_asset)
    }
}

} // verus!
