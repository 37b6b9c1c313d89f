//! Header handling: draining header lines and scanning for `Content-Length`.
//!
//! After the request line, the client sends zero or more header lines and
//! then an empty line.  The server never interprets headers except for one
//! case: a POST request must carry a `Content-Length` header so the body can
//! be relayed to the CGI subprocess.  The scan folds each line to uppercase
//! and looks for the label `CONTENT-LENGTH:` anywhere in it; on the first
//! line that carries the label, everything after the first sixteen
//! characters is read as a non-negative decimal number.  A missing label, a
//! label not followed by digits, or a value too large to represent all
//! count as "no usable length" — the caller answers 400.
//!
//! Both scans work on the buffered stream prefix, like the line reader, and
//! answer `None` while the buffered bytes cannot settle the outcome yet.

use vstd::prelude::*;
use crate::ascii::{upper_seq, to_upper};
use crate::line::{line_spec, read_line_bytes, LineOutcome, lemma_line_spec_consumed};
use vstd::slice::slice_subrange;

verus! {

/// Header line bodies are capped at this many bytes, like the fixed
/// per-line buffer the reader works with.
pub const HEADER_LINE_CAP: usize = 1024;

/// The uppercase label that marks the content-length header.
pub open spec fn cl_label() -> Seq<u8> {
    seq![67u8, 79u8, 78u8, 84u8, 69u8, 78u8, 84u8, 45u8, 76u8, 69u8, 78u8, 71u8, 84u8, 72u8, 58u8]
}

/// Does the label occur in `s` starting at position `i`?
pub open spec fn has_cl_at(s: Seq<u8>, i: int) -> bool {
    0 <= i && i + 15 <= s.len() && s.subrange(i, i + 15) == cl_label()
}

/// Does the label occur anywhere in `s`?
pub open spec fn has_cl(s: Seq<u8>) -> bool {
    exists|i: int| has_cl_at(s, i)
}

/// Is this header line the content-length header: does its uppercase folding
/// contain the label anywhere?
pub open spec fn is_cl_line(line: Seq<u8>) -> bool {
    has_cl(upper_seq(line))
}

/// Are all bytes ASCII decimal digits?
pub open spec fn all_digits(s: Seq<u8>) -> bool {
    forall|i: int| 0 <= i < s.len() ==> 48 <= #[trigger] s[i] <= 57
}

/// The number a digit string denotes, most significant digit first.
pub open spec fn dec_value(digits: Seq<u8>) -> int
    decreases digits.len(),
{
    if digits.len() == 0 {
        0
    } else {
        dec_value(digits.drop_last()) * 10 + (digits.last() - 48)
    }
}

/// The content-length value a header line carries, if any: everything after
/// the first sixteen characters of the uppercase folding, read as a
/// non-negative decimal number no larger than `i32::MAX`.
pub open spec fn cl_value_spec(line: Seq<u8>) -> Option<u32> {
    let u = upper_seq(line);
    if u.len() < 17 {
        None
    } else {
        let digits = u.skip(16);
        if all_digits(digits) && dec_value(digits) <= 0x7fffffff {
            Some(dec_value(digits) as u32)
        } else {
            None
        }
    }
}

/// A digit string denotes a non-negative number.
proof fn lemma_dec_value_nonneg(s: Seq<u8>)
    requires
        all_digits(s),
    ensures
        dec_value(s) >= 0,
    decreases s.len(),
{
    if s.len() > 0 {
        lemma_dec_value_nonneg(s.drop_last());
    }
}

/// Extending a digit string never shrinks its value: every prefix denotes
/// at most what the whole string denotes.
proof fn lemma_dec_value_prefix_le(s: Seq<u8>, k: int)
    requires
        0 <= k <= s.len(),
        all_digits(s),
    ensures
        dec_value(s.take(k)) <= dec_value(s),
    decreases s.len() - k,
{
    if k == s.len() {
        assert(s.take(k) =~= s);
    } else {
        assert(s.take(k + 1).drop_last() =~= s.take(k));
        assert(s.take(k + 1).last() == s[k]);
        assert(all_digits(s.take(k)));
        lemma_dec_value_nonneg(s.take(k));
        assert(dec_value(s.take(k + 1)) == dec_value(s.take(k)) * 10 + (s[k] - 48));
        lemma_dec_value_prefix_le(s, k + 1);
    }
}

/// What scanning all remaining header lines for a content-length value
/// yields, if the buffered bytes settle it: the value carried by the first
/// line containing the label (`None` inside the pair when no line before
/// the empty line carries a usable value), and the bytes consumed through
/// the empty line.
pub open spec fn post_scan_spec(input: Seq<u8>, at_eof: bool) -> Option<(Option<u32>, nat)>
    decreases input.len(),
{
    match line_spec(input, HEADER_LINE_CAP as nat, at_eof) {
        Option::None => None,
        Option::Some((line, c)) => {
            if line.len() == 0 {
                Some((None, c))
            } else if 1 <= c <= input.len() {
                if is_cl_line(line) {
                    match drain_spec(input.skip(c as int), at_eof) {
                        Option::None => None,
                        Option::Some(c2) => Some((cl_value_spec(line), (c + c2) as nat)),
                    }
                } else {
                    match post_scan_spec(input.skip(c as int), at_eof) {
                        Option::None => None,
                        Option::Some((v, c2)) => Some((v, (c + c2) as nat)),
                    }
                }
            } else {
                None
            }
        },
    }
}

/// What draining header lines up to and including the empty line consumes,
/// if the buffered bytes settle it.
pub open spec fn drain_spec(input: Seq<u8>, at_eof: bool) -> Option<nat>
    decreases input.len(),
{
    match line_spec(input, HEADER_LINE_CAP as nat, at_eof) {
        Option::None => None,
        Option::Some((line, c)) => {
            if line.len() == 0 {
                Some(c)
            } else if 1 <= c <= input.len() {
                match drain_spec(input.skip(c as int), at_eof) {
                    Option::None => None,
                    Option::Some(c2) => Some((c + c2) as nat),
                }
            } else {
                None
            }
        },
    }
}

/// A settled drain never consumes more than the buffered input.
pub proof fn lemma_drain_spec_le(input: Seq<u8>, at_eof: bool)
    ensures
        match drain_spec(input, at_eof) {
            Option::Some(c) => c <= input.len(),
            Option::None => true,
        },
    decreases input.len(),
{
    lemma_line_spec_consumed(input, HEADER_LINE_CAP as nat, at_eof);
    match line_spec(input, HEADER_LINE_CAP as nat, at_eof) {
        Option::None => {}
        Option::Some((line, c)) => {
            if line.len() != 0 && 1 <= c <= input.len() {
                lemma_drain_spec_le(input.skip(c as int), at_eof);
            }
        }
    }
}

/// The label as bytes, for the running scan.
fn cl_label_bytes() -> (r: Vec<u8>)
    ensures
        r@ == cl_label(),
{
    let mut v: Vec<u8> = Vec::new();
    v.push(67u8);
    v.push(79u8);
    v.push(78u8);
    v.push(84u8);
    v.push(69u8);
    v.push(78u8);
    v.push(84u8);
    v.push(45u8);
    v.push(76u8);
    v.push(69u8);
    v.push(78u8);
    v.push(71u8);
    v.push(84u8);
    v.push(72u8);
    v.push(58u8);
    proof {
        assert(v@ =~= cl_label());
    }
    v
}

/// Does the label occur in `u` at position `i`?
fn label_matches_at(u: &Vec<u8>, lbl: &Vec<u8>, i: usize) -> (b: bool)
    requires
        lbl@ == cl_label(),
        i + 15 <= u@.len(),
    ensures
        b == has_cl_at(u@, i as int),
{
    let n = u.len();
    let mut j: usize = 0;
    while j < 15
        invariant
            j <= 15,
            n == u@.len(),
            i + 15 <= u@.len(),
            lbl@ == cl_label(),
            forall|k: int| 0 <= k < j ==> u@[i + k] == cl_label()[k],
        decreases 15 - j,
    {
        if u[i + j] != lbl[j] {
            proof {
                assert(u@.subrange(i as int, i + 15) != cl_label()) by {
                    assert(u@.subrange(i as int, i + 15)[j as int] == u@[i + j]);
                }
            }
            return false;
        }
        j = j + 1;
    }
    proof {
        assert(u@.subrange(i as int, i + 15) =~= cl_label());
    }
    true
}

/// Does the uppercase folding of `line` contain the label anywhere?
fn line_has_cl(u: &Vec<u8>) -> (b: bool)
    ensures
        b == has_cl(u@),
{
    let lbl = cl_label_bytes();
    if u.len() < 15 {
        proof {
            assert(!has_cl(u@)) by {
                assert(forall|i: int| !has_cl_at(u@, i));
            }
        }
        return false;
    }
    let n = u.len();
    let mut i: usize = 0;
    while i <= n - 15
        invariant
            n == u@.len(),
            n >= 15,
            i <= n - 15 + 1,
            lbl@ == cl_label(),
            forall|k: int| 0 <= k < i ==> !has_cl_at(u@, k),
        decreases u@.len() - i,
    {
        if label_matches_at(u, &lbl, i) {
            proof {
                assert(has_cl(u@)) by {
                    assert(has_cl_at(u@, i as int));
                }
            }
            return true;
        }
        i = i + 1;
    }
    proof {
        assert(!has_cl(u@)) by {
            assert(forall|k: int| has_cl_at(u@, k) ==> 0 <= k < i);
        }
    }
    false
}

/// Read the decimal value out of an uppercase-folded content-length line.
fn parse_cl_upper(u: &Vec<u8>) -> (v: Option<u32>)
    requires
        u@ == upper_seq(u@),
    ensures
        v == cl_value_spec(u@),
{
    proof {
        assert(upper_seq(u@) =~= u@);
    }
    if u.len() < 17 {
        return None;
    }
    let ghost digits: Seq<u8> = u@.skip(16);
    let mut val: u64 = 0;
    let mut i: usize = 16;
    while i < u.len()
        invariant
            16 <= i <= u@.len(),
            17 <= u@.len(),
            digits == u@.skip(16),
            upper_seq(u@) == u@,
            all_digits(u@.subrange(16, i as int)),
            val == dec_value(u@.subrange(16, i as int)),
            val <= 0x7fffffff,
        decreases u@.len() - i,
    {
        let b = u[i];
        proof {
            assert(digits[i - 16] == u@[i as int]);
        }
        if b < 48 || b > 57 {
            proof {
                assert(!all_digits(digits));
            }
            return None;
        }
        let d = (b - 48) as u64;
        let next = val * 10 + d;
        proof {
            assert(u@.subrange(16, i + 1).drop_last() =~= u@.subrange(16, i as int));
            assert(u@.subrange(16, i + 1).last() == u@[i as int]);
            assert(dec_value(u@.subrange(16, i + 1)) == val * 10 + d);
        }
        if next > 0x7fffffff {
            proof {
                if all_digits(digits) {
                    lemma_dec_value_prefix_le(digits, i + 1 - 16);
                    assert(digits.take(i + 1 - 16) =~= u@.subrange(16, i + 1));
                    assert(dec_value(digits) > 0x7fffffff);
                }
            }
            return None;
        }
        val = next;
        i = i + 1;
        proof {
            assert(all_digits(u@.subrange(16, i as int)));
        }
    }
    proof {
        assert(u@.subrange(16, u@.len() as int) =~= digits);
    }
    Some(val as u32)
}

/// The content-length value carried by a raw header line, if any.
pub fn content_length_of(line: &[u8]) -> (v: Option<u32>)
    ensures
        v == cl_value_spec(line@),
{
    let u = to_upper(line);
    proof {
        assert(upper_seq(u@) =~= upper_seq(line@));
    }
    parse_cl_upper(&u)
}

/// Consume header lines up to and including the empty line, per
/// [`drain_spec`].  `Some(c)` says the headers end after exactly `c`
/// buffered bytes; `None` says the buffered bytes do not settle that yet.
pub fn drain_headers(input: &[u8], at_eof: bool) -> (r: Option<usize>)
    ensures
        match r {
            Option::Some(c) => drain_spec(input@, at_eof) == Some(c as nat),
            Option::None => drain_spec(input@, at_eof) is None,
        },
{
    let mut offset: usize = 0;
    proof {
        assert(input@.skip(0) =~= input@);
    }
    loop
        invariant
            offset <= input@.len(),
            drain_spec(input@, at_eof) == (match drain_spec(input@.skip(offset as int), at_eof) {
                Option::None => None::<nat>,
                Option::Some(c) => Some((offset + c) as nat),
            }),
        decreases input@.len() - offset,
    {
        let rest = slice_subrange(input, offset, input.len());
        proof {
            assert(rest@ =~= input@.skip(offset as int));
            lemma_line_spec_consumed(rest@, HEADER_LINE_CAP as nat, at_eof);
        }
        match read_line_bytes(rest, HEADER_LINE_CAP, at_eof) {
            LineOutcome::NeedMore => {
                return None;
            }
            LineOutcome::Line { line, consumed } => {
                if line.len() == 0 {
                    return Some(offset + consumed);
                }
                proof {
                    assert(input@.skip(offset as int).skip(consumed as int)
                        =~= input@.skip(offset + consumed));
                }
                offset = offset + consumed;
            }
        }
    }
}

/// Scan the remaining header lines for a content-length value, consuming
/// them up to and including the empty line, per [`post_scan_spec`].  The
/// inner option is the value of the first line carrying the label — `None`
/// when no line before the empty line carries a usable one.
#[verifier::rlimit(50)]
pub fn find_content_length(input: &[u8], at_eof: bool) -> (r: Option<(Option<u32>, usize)>)
    ensures
        match r {
            Option::Some(p) => post_scan_spec(input@, at_eof) == Some((p.0, p.1 as nat)),
            Option::None => post_scan_spec(input@, at_eof) is None,
        },
{
    let mut offset: usize = 0;
    proof {
        assert(input@.skip(0) =~= input@);
    }
    loop
        invariant
            offset <= input@.len(),
            post_scan_spec(input@, at_eof) == (match post_scan_spec(
                input@.skip(offset as int),
                at_eof,
            ) {
                Option::None => None::<(Option<u32>, nat)>,
                Option::Some(p) => Some((p.0, (offset + p.1) as nat)),
            }),
        decreases input@.len() - offset,
    {
        let rest = slice_subrange(input, offset, input.len());
        proof {
            assert(rest@ =~= input@.skip(offset as int));
            lemma_line_spec_consumed(rest@, HEADER_LINE_CAP as nat, at_eof);
        }
        match read_line_bytes(rest, HEADER_LINE_CAP, at_eof) {
            LineOutcome::NeedMore => {
                return None;
            }
            LineOutcome::Line { line, consumed } => {
                if line.len() == 0 {
                    return Some((None, offset + consumed));
                }
                let u = to_upper(line.as_slice());
                if line_has_cl(&u) {
                    let value = content_length_of(line.as_slice());
                    let tail = slice_subrange(input, offset + consumed, input.len());
                    proof {
                        assert(tail@ =~= input@.skip(offset as int).skip(consumed as int));
                        lemma_drain_spec_le(tail@, at_eof);
                    }
                    match drain_headers(tail, at_eof) {
                        Option::None => {
                            return None;
                        }
                        Option::Some(c2) => {
                            return Some((value, offset + consumed + c2));
                        }
                    }
                }
                proof {
                    assert(input@.skip(offset as int).skip(consumed as int)
                        =~= input@.skip(offset + consumed));
                }
                offset = offset + consumed;
            }
        }
    }
}

} // verus!
