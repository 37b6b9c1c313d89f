//! Small shared helpers on byte vectors.

use vstd::prelude::*;

verus! {

/// Append a byte slice unchanged.
pub fn append_bytes(v: &mut Vec<u8>, bytes: &[u8])
    ensures
        final(v)@ == old(v)@ + bytes@,
{
    let mut i: usize = 0;
    while i < bytes.len()
        invariant
            i <= bytes@.len(),
            v@ == old(v)@ + bytes@.take(i as int),
        decreases bytes@.len() - i,
    {
        v.push(bytes[i]);
        i = i + 1;
        proof {
            assert(v@ =~= old(v)@ + bytes@.take(i as int));
        }
    }
    proof {
        assert(v@ =~= old(v)@ + bytes@);
    }
}

/// A byte slice as an owned vector.
pub fn copy_bytes(bytes: &[u8]) -> (r: Vec<u8>)
    ensures
        r@ == bytes@,
{
    let mut v: Vec<u8> = Vec::new();
    append_bytes(&mut v, bytes);
    proof {
        assert(v@ =~= bytes@);
    }
    v
}

} // verus!
