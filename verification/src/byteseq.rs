//! Small verified helpers on byte vectors and slices.

use vstd::prelude::*;

verus! {

/// Copies a byte vector.
pub fn copy_bytes(src: &Vec<u8>) -> (r: Vec<u8>)
    ensures
        r@ == src@,
{
    let mut out: Vec<u8> = Vec::new();
    let mut i: usize = 0;
    while i < src.len()
        invariant
            i <= src@.len(),
            out@ == src@.subrange(0, i as int),
        decreases src@.len() - i,
    {
        out.push(src[i]);
        i = i + 1;
        proof {
            assert(out@ =~= src@.subrange(0, i as int));
        }
    }
    proof {
        assert(out@ =~= src@);
    }
    out
}

/// Appends all of `src` to `dst`.
pub fn push_all(dst: &mut Vec<u8>, src: &[u8])
    ensures
        final(dst)@ == old(dst)@ + src@,
{
    let mut i: usize = 0;
    while i < src.len()
        invariant
            i <= src@.len(),
            dst@ == old(dst)@ + src@.subrange(0, i as int),
        decreases src@.len() - i,
    {
        dst.push(src[i]);
        i = i + 1;
        proof {
            assert(dst@ =~= old(dst)@ + src@.subrange(0, i as int));
        }
    }
    proof {
        assert(dst@ =~= old(dst)@ + src@);
    }
}

/// Compares two byte slices for equality of contents.
pub fn bytes_eq(a: &[u8], b: &[u8]) -> (r: bool)
    ensures
        r == (a@ == b@),
{
    if a.len() != b.len() {
        return false;
    }
    let mut i: usize = 0;
    while i < a.len()
        invariant
            i <= a@.len(),
            a@.len() == b@.len(),
            forall|j: int| 0 <= j < i ==> a@[j] == b@[j],
        decreases a@.len() - i,
    {
        if a[i] != b[i] {
            return false;
        }
        i = i + 1;
    }
    proof {
        assert(a@ =~= b@);
    }
    true
}

} // verus!
