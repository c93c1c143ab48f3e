//! The hash function that drives diffusion.

use sha2::{Digest, Sha256};
use vstd::prelude::*;

verus! {

/// Size in bytes of a SHA-256 digest, and of one block of the ring.
pub const BLOCK_SIZE: usize = 32;

/// The SHA-256 digest of `data`, as `sha2` computes it.
pub uninterp spec fn sha256_digest(data: Seq<u8>) -> Seq<u8>;

/// Hashes `data` with `sha2::Sha256::digest`.
///
/// Trusted: the result is the SHA-256 digest of `data`, a function of the bytes
/// alone, and is 32 bytes long. Nothing else is claimed of it.
#[verifier::external_body]
pub(crate) fn sha256(data: &Vec<u8>) -> (digest: Vec<u8>)
    ensures
        digest@ == sha256_digest(data@),
        digest@.len() == BLOCK_SIZE,
{
    Sha256::digest(data).to_vec()
}

} // verus!
