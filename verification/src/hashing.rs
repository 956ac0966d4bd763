//! SHA-512.
use vstd::prelude::*;

use sha2::Digest;

verus! {

/// The SHA-512 digest of `data`, as `sha2::Sha512::digest` returns it.
pub uninterp spec fn sha512_digest(data: Seq<u8>) -> Seq<u8>;

/// Trusted: `<sha2::Sha512 as Digest>::digest`.
///
/// The digest is a function of the hashed bytes alone and is named
/// [`sha512_digest`]. Hashing never fails and the result has 64 bytes.
#[verifier::external_body]
pub(crate) fn sha512(data: &[u8]) -> (digest: [u8; 64])
    ensures
        digest@ == sha512_digest(data@),
{
    sha2::Sha512::digest(data).into()
}

} // verus!
