//! Trusted interfaces to the outside hash and memory-wiping primitives.
use vstd::prelude::*;

use sha2::{Digest, Sha256};
use zeroize::Zeroize;

verus! {

/// The SHA-256 digest of a byte string (FIPS 180-4), as computed by the `sha2` crate.
pub uninterp spec fn sha256(data: Seq<u8>) -> Seq<u8>;

/// `sha2::Sha256::digest`: claimed to return the SHA-256 digest of `data`, i.e. the
/// same 32 bytes for the same input. Nothing else about the digest is stated.
#[verifier::external_body]
pub(crate) fn sha256_digest(data: &[u8]) -> (digest: [u8; 32])
    ensures
        digest@ == sha256(data@),
{
    Sha256::digest(data).into()
}

/// The 32 digest bytes of SHA-256 over `data`, as a sequence of exactly that length.
pub open spec fn digest32(data: Seq<u8>) -> Seq<u8> {
    Seq::new(32, |i: int| sha256(data)[i])
}

/// The all-zero block.
pub open spec fn zero_block() -> Seq<u8> {
    Seq::new(32, |i: int| 0u8)
}

/// `zeroize::Zeroize::zeroize` on a 32-byte array: claimed to overwrite every
/// byte with zero (with writes the compiler may not elide).
#[verifier::external_body]
pub(crate) fn wipe_block(block: &mut [u8; 32])
    ensures
        final(block)@ == zero_block(),
{
    block.zeroize();
}

} // verus!
