//! The hash function: BLAKE2s with a 256-bit digest, as the `blake2` crate
//! implements it.

use blake2::Digest;
use vstd::prelude::*;

verus! {

/// Number of bytes in a digest.
pub const HASH_LEN: usize = 32;

/// The digest that `Blake2s256::digest` returns for `data`.
pub uninterp spec fn blake2s256(data: Seq<u8>) -> Seq<u8>;

/// The digest of `data`, known to have `HASH_LEN` bytes.
///
/// The hash function gives that many bytes for every input, as the type of
/// its result shows. Stating the length here lets a proof use it of a digest
/// that nothing has computed.
pub open spec fn digest_of(data: Seq<u8>) -> Seq<u8> {
    let hash = blake2s256(data);
    if hash.len() == HASH_LEN {
        hash
    } else {
        Seq::new(32, |i: int| 0u8)
    }
}

/// Calls `Blake2s256::digest` of `blake2`.
///
/// Nothing is proved here. Claims that the digest is the named function of
/// the bytes that were hashed.
#[verifier::external_body]
fn blake2s(data: &[u8]) -> (out: [u8; 32])
    ensures
        out@ == blake2s256(data@),
{
    blake2::Blake2s256::digest(data).into()
}

/// Hashes `data`.
pub fn digest(data: &[u8]) -> (out: [u8; 32])
    ensures
        out@ == digest_of(data@),
{
    blake2s(data)
}

} // verus!
