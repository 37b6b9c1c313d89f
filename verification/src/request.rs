//! Parsing the request line.
//!
//! The first line of a request is `METHOD SP TARGET SP PROTOCOL`.  The whole
//! line is folded to uppercase first, so method and protocol comparisons are
//! case-insensitive; the line is then split on single spaces into its three
//! tokens, and the target is split at its first `?` into the path and the
//! query string.  No percent-decoding and no validation of the protocol
//! token happen here.  Parsing succeeds only when the method and the path
//! both come out non-empty.

use vstd::prelude::*;
use crate::ascii::{upper_seq, to_upper};

verus! {

/// A parsed request line.  Method, path and protocol are uppercase foldings
/// of the corresponding slices of the raw line; the query is present if and
/// only if the raw target contained a `?`.
pub struct ParsedRequest {
    pub method: Vec<u8>,
    pub path: Vec<u8>,
    pub query: Option<Vec<u8>>,
    pub protocol: Vec<u8>,
}

/// The mathematical shadow of [`ParsedRequest`].
pub struct ReqView {
    pub method: Seq<u8>,
    pub path: Seq<u8>,
    pub query: Option<Seq<u8>>,
    pub protocol: Seq<u8>,
}

impl View for ParsedRequest {
    type V = ReqView;

    open spec fn view(&self) -> ReqView {
        ReqView {
            method: self.method@,
            path: self.path@,
            query: match self.query {
                Option::Some(q) => Some(q@),
                Option::None => None,
            },
            protocol: self.protocol@,
        }
    }
}

/// Length of the run of bytes at the head of `s` before the first `stop`
/// byte (the whole of `s` if `stop` does not occur).
pub open spec fn run_len(s: Seq<u8>, stop: u8) -> nat
    decreases s.len(),
{
    if s.len() == 0 || s[0] == stop {
        0
    } else {
        (1 + run_len(s.drop_first(), stop)) as nat
    }
}

/// `run_len` is the unique scan position: if the first `p` bytes avoid
/// `stop` and position `p` is the end of `s` or holds `stop`, the run is
/// exactly `p` long.
pub proof fn lemma_run_len_is(s: Seq<u8>, stop: u8, p: nat)
    requires
        p <= s.len(),
        forall|i: int| 0 <= i < p ==> #[trigger] s[i] != stop,
        p < s.len() ==> s[p as int] == stop,
    ensures
        run_len(s, stop) == p,
    decreases p,
{
    if p > 0 {
        let rest = s.drop_first();
        assert forall|i: int| 0 <= i < p - 1 implies #[trigger] rest[i] != stop by {
            assert(rest[i] == s[i + 1]);
        }
        if (p - 1) < rest.len() {
            assert(rest[p - 1] == s[p as int]);
        }
        lemma_run_len_is(rest, stop, (p - 1) as nat);
    }
}

/// The run stops short of the end of `s` exactly when `stop` occurs in `s`.
pub proof fn lemma_run_len_finds(s: Seq<u8>, stop: u8)
    ensures
        (run_len(s, stop) < s.len()) <==> (exists|i: int|
            0 <= i < s.len() && s[i] == stop),
    decreases s.len(),
{
    if s.len() == 0 {
    } else if s[0] == stop {
        assert(s[0] == stop);
    } else {
        let rest = s.drop_first();
        lemma_run_len_finds(rest, stop);
        if run_len(s, stop) < s.len() {
            let i = choose|i: int| 0 <= i < rest.len() && rest[i] == stop;
            assert(s[i + 1] == stop);
        } else if exists|i: int| 0 <= i < s.len() && s[i] == stop {
            let i = choose|i: int| 0 <= i < s.len() && s[i] == stop;
            assert(rest[i - 1] == stop);
        }
    }
}

/// The target token of the raw request line: everything between the first
/// space and the next, in the uppercase folding.
pub open spec fn target_of(line: Seq<u8>) -> Seq<u8> {
    let u = upper_seq(line);
    let a = run_len(u, 32);
    if a >= u.len() {
        Seq::empty()
    } else {
        let rest1 = u.skip(a + 1 as int);
        rest1.take(run_len(rest1, 32) as int)
    }
}

/// What parsing the raw request line yields.  The uppercase folding of the
/// line is split on single spaces into method, target and protocol; the
/// target is split at its first `?` into path and query.  Parsing fails
/// when the method or the path comes out empty.
pub open spec fn parse_spec(line: Seq<u8>) -> Option<ReqView> {
    let u = upper_seq(line);
    let a = run_len(u, 32);
    if a == 0 || a >= u.len() {
        None
    } else {
        let rest1 = u.skip(a + 1 as int);
        let t = run_len(rest1, 32);
        let target = target_of(line);
        let q = run_len(target, 63);
        let path = target.take(q as int);
        let query = if q < target.len() {
            Some(target.skip(q + 1 as int))
        } else {
            None
        };
        let rest2 = if a + 1 + t + 1 <= u.len() {
            u.skip(a + 1 + t + 1 as int)
        } else {
            Seq::<u8>::empty()
        };
        let protocol = rest2.take(run_len(rest2, 32) as int);
        if path.len() == 0 {
            None
        } else {
            Some(ReqView { method: u.take(a as int), path, query, protocol })
        }
    }
}

/// Index of the first `stop` byte at or after `from` (the end of the vector
/// if `stop` does not occur there).
fn scan_to(v: &Vec<u8>, from: usize, stop: u8) -> (p: usize)
    requires
        from <= v@.len(),
    ensures
        from <= p <= v@.len(),
        run_len(v@.skip(from as int), stop) == p - from,
        forall|i: int| from <= i < p ==> #[trigger] v@[i] != stop,
        p < v@.len() ==> v@[p as int] == stop,
{
    let n = v.len();
    let mut p: usize = from;
    while p < n && v[p] != stop
        invariant
            from <= p <= n,
            n == v@.len(),
            forall|i: int| from <= i < p ==> #[trigger] v@[i] != stop,
        decreases n - p,
    {
        p = p + 1;
    }
    proof {
        let s = v@.skip(from as int);
        assert forall|i: int| 0 <= i < p - from implies #[trigger] s[i] != stop by {
            assert(s[i] == v@[from + i]);
        }
        if (p - from) < s.len() {
            assert(s[p - from] == v@[p as int]);
        }
        lemma_run_len_is(s, stop, (p - from) as nat);
    }
    p
}

/// The bytes of `v` from `from` up to `to`, as an owned vector.
fn copy_range(v: &Vec<u8>, from: usize, to: usize) -> (r: Vec<u8>)
    requires
        from <= to <= v@.len(),
    ensures
        r@ == v@.subrange(from as int, to as int),
{
    let mut r: Vec<u8> = Vec::new();
    let mut i: usize = from;
    while i < to
        invariant
            from <= i <= to <= v@.len(),
            r@ == v@.subrange(from as int, i as int),
        decreases to - i,
    {
        r.push(v[i]);
        i = i + 1;
        proof {
            assert(r@ =~= v@.subrange(from as int, i as int));
        }
    }
    r
}

/// Parse a raw request line per [`parse_spec`].
pub fn parse_request_line(line: &[u8]) -> (r: Option<ParsedRequest>)
    ensures
        match r {
            Option::Some(req) => parse_spec(line@) == Some(req@),
            Option::None => parse_spec(line@) is None,
        },
{
    let u = to_upper(line);
    proof {
        assert(u@.skip(0) =~= u@);
    }
    let a = scan_to(&u, 0, 32u8);
    if a == 0 || a >= u.len() {
        return None;
    }
    let t_end = scan_to(&u, a + 1, 32u8);
    let target = copy_range(&u, a + 1, t_end);
    proof {
        assert(target@ =~= u@.skip(a + 1).take((t_end - (a + 1)) as int));
        assert(target@.skip(0) =~= target@);
    }
    let q = scan_to(&target, 0, 63u8);
    let path = copy_range(&target, 0, q);
    proof {
        assert(path@ =~= target@.take(q as int));
    }
    if path.len() == 0 {
        return None;
    }
    let query = if q < target.len() {
        let qv = copy_range(&target, q + 1, target.len());
        proof {
            assert(qv@ =~= target@.skip(q + 1));
        }
        Some(qv)
    } else {
        None
    };
    let protocol = if t_end < u.len() {
        let p_end = scan_to(&u, t_end + 1, 32u8);
        let pv = copy_range(&u, t_end + 1, p_end);
        proof {
            assert(pv@ =~= u@.skip(t_end + 1).take((p_end - (t_end + 1)) as int));
        }
        pv
    } else {
        Vec::new()
    };
    let method = copy_range(&u, 0, a);
    proof {
        assert(method@ =~= u@.take(a as int));
        if t_end >= u.len() {
            assert(run_len(Seq::<u8>::empty(), 32u8) == 0);
            assert(protocol@ =~= Seq::<u8>::empty().take(0));
        }
    }
    Some(ParsedRequest { method, path, query, protocol })
}

/// Law: a parsed request never has an empty method or an empty path —
/// parsing fails outright rather than produce either.
pub proof fn lemma_parsed_fields_nonempty(line: Seq<u8>)
    ensures
        match parse_spec(line) {
            Option::Some(r) => r.method.len() > 0 && r.path.len() > 0,
            Option::None => true,
        },
{
}

/// Law: a parsed request carries a query exactly when the raw target
/// contained a `?`.
pub proof fn lemma_query_presence(line: Seq<u8>)
    ensures
        match parse_spec(line) {
            Option::Some(r) => (r.query is Some) <==> (exists|i: int|
                0 <= i < target_of(line).len() && target_of(line)[i] == 63),
            Option::None => true,
        },
{
    lemma_run_len_finds(target_of(line), 63);
}

/// The uppercase method token `GET`.
pub open spec fn get_token() -> Seq<u8> {
    seq![71u8, 69u8, 84u8]
}

/// The uppercase method token `POST`.
pub open spec fn post_token() -> Seq<u8> {
    seq![80u8, 79u8, 83u8, 84u8]
}

/// Is this (already uppercase-folded) method one the server implements?
pub open spec fn method_supported(m: Seq<u8>) -> bool {
    m == get_token() || m == post_token()
}

/// Decide [`method_supported`] for a method token.
pub fn is_supported_method(m: &[u8]) -> (b: bool)
    ensures
        b == method_supported(m@),
{
    if m.len() == 3 {
        let r = m[0] == 71u8 && m[1] == 69u8 && m[2] == 84u8;
        proof {
            if r {
                assert(m@ =~= get_token());
            }
        }
        r
    } else if m.len() == 4 {
        let r = m[0] == 80u8 && m[1] == 79u8 && m[2] == 83u8 && m[3] == 84u8;
        proof {
            if r {
                assert(m@ =~= post_token());
            }
        }
        r
    } else {
        false
    }
}

} // verus!
