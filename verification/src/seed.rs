//! The hash that a game's seed is committed by.

use vstd::prelude::*;

verus! {

/// The SHA-256 digest of a sequence of bytes.
pub uninterp spec fn sha256(data: Seq<u8>) -> Seq<u8>;

/// Calls `solana_sha256_hasher::hashv` on the one slice that holds `seed`.
///
/// What is not proved: that the call returns, as 32 bytes, the digest named
/// `sha256`, which depends on the bytes of `seed` alone.
#[verifier::external_body]
pub(crate) fn hash_seed(seed: &[u8; 32]) -> (digest: [u8; 32])
    ensures
        digest@ == sha256(seed@),
{
    solana_sha256_hasher::hashv(&[seed.as_slice()]).to_bytes()
}

} // verus!
