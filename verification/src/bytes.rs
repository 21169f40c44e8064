//! Small operations on byte strings.

use vstd::prelude::*;

verus! {

/// Appends `src` to `out`.
pub fn append(out: &mut Vec<u8>, src: &[u8])
    ensures
        final(out)@ == old(out)@ + src@,
{
    let ghost before = out@;
    for i in 0..src.len()
        invariant
            out@ == before + src@.take(i as int),
    {
        out.push(src[i]);
        assert(out@ =~= before + src@.take(i + 1));
    }
    assert(src@.take(src@.len() as int) =~= src@);
}

/// The bytes of `src` in a new vector.
pub fn to_vec(src: &[u8]) -> (r: Vec<u8>)
    ensures
        r@ == src@,
{
    let mut out: Vec<u8> = Vec::new();
    append(&mut out, src);
    assert(out@ =~= src@);
    out
}

/// Whether two addresses are the same.
pub fn same_address(a: &[u8; 6], b: &[u8; 6]) -> (r: bool)
    ensures
        r == (a@ == b@),
{
    for i in 0..6
        invariant
            forall|j: int| 0 <= j < i ==> a@[j] == b@[j],
    {
        if a[i] != b[i] {
            return false;
        }
    }
    assert(a@ =~= b@);
    true
}

} // verus!
