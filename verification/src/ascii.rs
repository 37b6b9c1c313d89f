//! Byte-level ASCII case folding.
//!
//! The parser and the header scan compare case-insensitively by first
//! folding every ASCII lowercase letter to its uppercase form; all other
//! bytes pass through unchanged.

use vstd::prelude::*;

verus! {

/// One byte folded to uppercase: ASCII `a`..`z` lose 32, everything else is
/// kept as it is.
pub open spec fn upper_byte(b: u8) -> u8 {
    if 97 <= b && b <= 122 {
        (b - 32) as u8
    } else {
        b
    }
}

/// A byte sequence folded to uppercase, byte by byte.
pub open spec fn upper_seq(s: Seq<u8>) -> Seq<u8> {
    Seq::new(s.len(), |i: int| upper_byte(s[i]))
}

/// Fold a byte slice to uppercase.
pub fn to_upper(bytes: &[u8]) -> (r: Vec<u8>)
    ensures
        r@ == upper_seq(bytes@),
{
    let mut v: Vec<u8> = Vec::new();
    let mut i: usize = 0;
    while i < bytes.len()
        invariant
            i <= bytes@.len(),
            v@ == upper_seq(bytes@).take(i as int),
        decreases bytes@.len() - i,
    {
        let b = bytes[i];
        if 97 <= b && b <= 122 {
            v.push(b - 32);
        } else {
            v.push(b);
        }
        i = i + 1;
        proof {
            assert(v@ =~= upper_seq(bytes@).take(i as int));
        }
    }
    proof {
        assert(v@ =~= upper_seq(bytes@));
    }
    v
}

} // verus!
