//! The per-connection decisions.
//!
//! A connection is handled in stages: parse the request line and check the
//! method; resolve the path; then either serve the file, run the target as
//! CGI, or answer an error envelope.  The functions here make those
//! decisions as pure functions of what the connection has yielded so far,
//! and their contracts pin each branch: an unsupported method always ends
//! in the 501 decision — which carries nothing to probe, open or spawn — a
//! URL that resolves to no file always ends in the 404 decision, and a
//! resolved target goes to CGI exactly when its execute bit is set or the
//! request carried a query string, an unusual but deliberate policy kept as
//! the server has it.

use vstd::prelude::*;
use crate::request::{ParsedRequest, parse_spec, parse_request_line, method_supported,
    is_supported_method};
use crate::resolve::ResolvedTarget;

verus! {

/// What the request line alone decides.
pub enum LineDecision {
    /// The line did not parse, or the method is neither GET nor POST:
    /// answer 501 and touch neither the filesystem nor a subprocess.
    NotImplemented,
    /// A parsed request with a supported method: go on to resolution.
    Dispatch { req: ParsedRequest },
}

/// Decide on the raw request line.  Exactly the well-parsed requests whose
/// method is GET or POST — after case folding — go forward; everything
/// else is answered 501.
pub fn on_request_line(line: &[u8]) -> (d: LineDecision)
    ensures
        match parse_spec(line@) {
            Option::None => d is NotImplemented,
            Option::Some(pv) => {
                if method_supported(pv.method) {
                    match d {
                        LineDecision::Dispatch { req } => req@ == pv,
                        LineDecision::NotImplemented => false,
                    }
                } else {
                    d is NotImplemented
                }
            },
        },
{
    match parse_request_line(line) {
        Option::None => LineDecision::NotImplemented,
        Option::Some(req) => {
            if is_supported_method(req.method.as_slice()) {
                LineDecision::Dispatch { req }
            } else {
                LineDecision::NotImplemented
            }
        },
    }
}

/// Does this target take the CGI branch?  Yes when its execute bit is set,
/// and also — deliberately — whenever the request carried a query string,
/// executable or not.
pub open spec fn cgi_eligible(is_executable: bool, query: Option<Seq<u8>>) -> bool {
    is_executable || query is Some
}

/// What a resolved (or unresolved) target decides.
pub enum TargetDecision {
    /// The URL resolved to no regular file: answer 404.
    NotFound,
    /// Stream this file behind the 200 envelope.
    ServeStatic { path: Vec<u8> },
    /// Run this target as a CGI subprocess.
    RunCgi { target: ResolvedTarget },
}

/// Decide on the resolution result.  No target means 404; a target goes to
/// CGI exactly when [`cgi_eligible`] holds of it and the request's query,
/// and is served as a static file otherwise.
pub fn on_target(req: &ParsedRequest, target: Option<ResolvedTarget>) -> (d: TargetDecision)
    ensures
        match target {
            Option::None => d is NotFound,
            Option::Some(t) => {
                if cgi_eligible(t.is_executable, req@.query) {
                    match d {
                        TargetDecision::RunCgi { target: chosen } => {
                            &&& chosen.path@ == t.path@
                            &&& chosen.is_executable == t.is_executable
                        },
                        _ => false,
                    }
                } else {
                    match d {
                        TargetDecision::ServeStatic { path } => path@ == t.path@,
                        _ => false,
                    }
                }
            },
        },
{
    match target {
        Option::None => TargetDecision::NotFound,
        Option::Some(t) => {
            let query_present = match &req.query {
                Option::Some(_) => true,
                Option::None => false,
            };
            if t.is_executable || query_present {
                TargetDecision::RunCgi { target: t }
            } else {
                TargetDecision::ServeStatic { path: t.path }
            }
        },
    }
}

} // verus!
