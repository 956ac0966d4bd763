//! Byte-string helpers shared by the hashing and framing code.
use vstd::prelude::*;

verus! {

/// The natural number that `s` encodes in little-endian order.
pub open spec fn le_value(s: Seq<u8>) -> nat
    decreases s.len(),
{
    if s.len() == 0 {
        0
    } else {
        s[0] as nat + 256 * le_value(s.drop_first())
    }
}

/// `len` zero bytes.
pub open spec fn zeros(len: nat) -> Seq<u8> {
    Seq::new(len, |i: int| 0u8)
}

/// Appends `tail` to `buf`.
pub(crate) fn append(buf: &mut Vec<u8>, tail: &[u8])
    ensures
        final(buf)@ == old(buf)@ + tail@,
{
    let ghost before = buf@;
    buf.extend_from_slice(tail);
    assert(buf@ =~= before + tail@);
}

/// A fresh vector with the bytes of `bytes`.
pub(crate) fn copy(bytes: &[u8]) -> (out: Vec<u8>)
    ensures
        out@ == bytes@,
{
    let mut out: Vec<u8> = Vec::with_capacity(bytes.len());
    append(&mut out, bytes);
    out
}

/// The first 32 bytes of a 64-byte digest.
pub(crate) fn first_half(digest: &[u8; 64]) -> (half: [u8; 32])
    ensures
        half@ == digest@.take(32),
{
    let mut half = [0u8; 32];
    for i in 0..32usize
        invariant
            forall|j: int| 0 <= j < i ==> half@[j] == digest@[j],
    {
        half[i] = digest[i];
    }
    assert(half@ =~= digest@.take(32));
    half
}

} // verus!
