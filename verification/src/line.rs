//! Reading one request or header line out of a buffered byte stream.
//!
//! The server reads its input line by line: the request line first, then
//! header lines until an empty one.  A line ends at a bare LF, or at a CR
//! that swallows an immediately following LF (CRLF collapses to one line
//! break); the returned line never includes the terminator.  Reading is
//! bounded: once `max_len` bytes of line body have been seen, the line is
//! truncated there and the terminator is left in the stream.
//!
//! The functions here work on the prefix of the stream that the caller has
//! buffered so far.  When the buffered bytes cannot yet settle the line — no
//! terminator seen and the bound not reached, or the prefix ends right after
//! a CR so a following LF can still arrive — the reader answers
//! [`LineOutcome::NeedMore`] and the caller reads more bytes before asking
//! again.  `at_eof` tells the reader that no further byte will come, which
//! lets a line ending in a final CR complete.

use vstd::prelude::*;

verus! {

/// Does this byte end a line?
pub open spec fn is_line_break(b: u8) -> bool {
    b == 13 || b == 10
}

/// Length of the line body at the head of `input`: the number of leading
/// bytes before the first CR or LF, capped at `max`.
pub open spec fn body_len(input: Seq<u8>, max: nat) -> nat
    decreases max,
{
    if max == 0 || input.len() == 0 || is_line_break(input[0]) {
        0
    } else {
        (1 + body_len(input.drop_first(), (max - 1) as nat)) as nat
    }
}

/// `body_len` is the unique scan position: if the first `p` bytes are free
/// of line breaks and position `p` is the bound, the end of the input, or a
/// line break, then the scan stops exactly at `p`.
pub proof fn lemma_body_len_is(input: Seq<u8>, max: nat, p: nat)
    requires
        p <= max,
        p <= input.len(),
        forall|i: int| 0 <= i < p ==> !is_line_break(#[trigger] input[i]),
        p < max && p < input.len() ==> is_line_break(input[p as int]),
    ensures
        body_len(input, max) == p,
    decreases p,
{
    if p == 0 {
    } else {
        let rest = input.drop_first();
        assert forall|i: int| 0 <= i < p - 1 implies !is_line_break(#[trigger] rest[i]) by {
            assert(rest[i] == input[i + 1]);
        }
        if (p - 1) < (max - 1) && (p - 1) < rest.len() {
            assert(rest[p - 1] == input[p as int]);
        }
        lemma_body_len_is(rest, (max - 1) as nat, (p - 1) as nat);
    }
}

/// The scan position stays within the bound and the input.
pub proof fn lemma_body_len_le(input: Seq<u8>, max: nat)
    ensures
        body_len(input, max) <= max,
        body_len(input, max) <= input.len(),
    decreases max,
{
    if !(max == 0 || input.len() == 0 || is_line_break(input[0])) {
        lemma_body_len_le(input.drop_first(), (max - 1) as nat);
    }
}

/// What one read of a line from the head of `input` yields, if the buffered
/// bytes settle it: the line body and the number of input bytes accounted
/// for, terminator included.  `None` means more input is needed — or, when
/// `at_eof` already holds, that the stream ended in the middle of a line.
pub open spec fn line_spec(input: Seq<u8>, max: nat, at_eof: bool) -> Option<(Seq<u8>, nat)> {
    let p = body_len(input, max);
    if p == max {
        Some((input.take(p as int), p))
    } else if p < input.len() && input[p as int] == 10 {
        Some((input.take(p as int), (p + 1) as nat))
    } else if p < input.len() && input[p as int] == 13 {
        if p + 1 < input.len() {
            if input[p as int + 1] == 10 {
                Some((input.take(p as int), (p + 2) as nat))
            } else {
                Some((input.take(p as int), (p + 1) as nat))
            }
        } else if at_eof {
            Some((input.take(p as int), (p + 1) as nat))
        } else {
            None
        }
    } else {
        None
    }
}

/// Bounds on a settled line: it accounts for at least its own bytes, never
/// more than the buffered input, and — as long as the cap is positive — for
/// at least one byte, so line-by-line scanning makes progress.
pub proof fn lemma_line_spec_consumed(input: Seq<u8>, max: nat, at_eof: bool)
    ensures
        match line_spec(input, max, at_eof) {
            Some((line, consumed)) => {
                &&& line.len() <= consumed <= input.len()
                &&& line.len() == body_len(input, max)
                &&& (max > 0 ==> consumed > 0)
            },
            None => true,
        },
{
    lemma_body_len_le(input, max);
}

/// Outcome of scanning the buffered stream prefix for one line.
pub enum LineOutcome {
    /// A settled line: its body, and how many buffered bytes it accounts
    /// for, terminator included.
    Line { line: Vec<u8>, consumed: usize },
    /// The buffered bytes do not settle a line yet.
    NeedMore,
}

/// The first `n` bytes of a slice as an owned vector.
fn copy_prefix(input: &[u8], n: usize) -> (r: Vec<u8>)
    requires
        n <= input@.len(),
    ensures
        r@ == input@.take(n as int),
{
    let mut v: Vec<u8> = Vec::new();
    let mut i: usize = 0;
    while i < n
        invariant
            i <= n <= input@.len(),
            v@ == input@.take(i as int),
        decreases n - i,
    {
        v.push(input[i]);
        i = i + 1;
        proof {
            assert(v@ =~= input@.take(i as int));
        }
    }
    v
}

/// Read one line from the head of the buffered bytes, with line bodies
/// capped at `max_len`.  Follows [`line_spec`] exactly: CRLF and bare LF end
/// a line, the terminator is stripped, a body reaching `max_len` is
/// truncated there, and a prefix that cannot settle the line yet yields
/// [`LineOutcome::NeedMore`].
pub fn read_line_bytes(input: &[u8], max_len: usize, at_eof: bool) -> (r: LineOutcome)
    ensures
        match r {
            LineOutcome::Line { line, consumed } => line_spec(input@, max_len as nat, at_eof)
                == Some((line@, consumed as nat)),
            LineOutcome::NeedMore => line_spec(input@, max_len as nat, at_eof) is None,
        },
{
    let n = input.len();
    let mut p: usize = 0;
    while p < max_len && p < n && input[p] != 13u8 && input[p] != 10u8
        invariant
            p <= max_len,
            p <= n,
            n == input@.len(),
            forall|i: int| 0 <= i < p ==> !is_line_break(#[trigger] input@[i]),
        decreases n - p,
    {
        p = p + 1;
    }
    proof {
        lemma_body_len_is(input@, max_len as nat, p as nat);
    }
    if p == max_len {
        LineOutcome::Line { line: copy_prefix(input, p), consumed: p }
    } else if p < n {
        if input[p] == 10u8 {
            LineOutcome::Line { line: copy_prefix(input, p), consumed: p + 1 }
        } else if p + 1 < n {
            if input[p + 1] == 10u8 {
                LineOutcome::Line { line: copy_prefix(input, p), consumed: p + 2 }
            } else {
                LineOutcome::Line { line: copy_prefix(input, p), consumed: p + 1 }
            }
        } else if at_eof {
            LineOutcome::Line { line: copy_prefix(input, p), consumed: p + 1 }
        } else {
            LineOutcome::NeedMore
        }
    } else {
        LineOutcome::NeedMore
    }
}

} // verus!
