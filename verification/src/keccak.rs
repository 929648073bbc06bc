//! The Keccak-256 hash, from the `sha3` crate.

use vstd::prelude::*;
use sha3::{Digest, Keccak256};

verus! {

/// The Keccak-256 digest of `data`.
pub uninterp spec fn keccak256_digest(data: Seq<u8>) -> Seq<u8>;

/// `Keccak256::digest`: the digest of the bytes, which is 32 bytes long.
#[verifier::external_body]
pub(crate) fn keccak256(data: &[u8]) -> (r: Vec<u8>)
    ensures
        r@ == keccak256_digest(data@),
        r@.len() == 32,
{
    Keccak256::digest(data).to_vec()
}

} // verus!
