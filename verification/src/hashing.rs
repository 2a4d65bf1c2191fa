//! The one-way hash the stores publish instead of sensitive bytes.

use vstd::prelude::*;
use blake2::Digest;

verus! {

/// The 32-byte BLAKE2b digest of a byte string; a function of the bytes alone.
pub uninterp spec fn blake2b256_of(data: Seq<u8>) -> Seq<u8>;

/// Relies on the blake2 crate's `Blake2b` with a 32-byte output parameter:
/// the digest depends on the input bytes alone and is exactly 32 bytes long.
#[verifier::external_body]
pub fn blake2b_256(data: &[u8]) -> (r: Vec<u8>)
    ensures
        r@ == blake2b256_of(data@),
        r@.len() == 32,
{
    let mut hasher = blake2::Blake2b::<blake2::digest::consts::U32>::new();
    hasher.update(data);
    hasher.finalize().to_vec()
}

} // verus!
