//! Digests of byte strings.

use sha2::{Digest, Sha512};
use vstd::prelude::*;

verus! {

/// The SHA-512 digest of a sequence of bytes.
pub uninterp spec fn sha512_digest(data: Seq<u8>) -> Seq<u8>;

/// Computes the SHA-512 digest of `data`.
///
/// Trusted: calls `Sha512::digest` of the crate sha2 and copies the bytes of
/// its result. The digest depends on the bytes alone, and its type is an
/// array of 64 bytes.
#[verifier::external_body]
pub(crate) fn sha512(data: &[u8]) -> (r: Vec<u8>)
    ensures
        r@ == sha512_digest(data@),
        r@.len() == 64,
{
    Sha512::digest(data).to_vec()
}

} // verus!
