//! SHA-256, as the `sha2` crate computes it.
use vstd::prelude::*;

verus! {

/// The SHA-256 digest of a byte string.
pub uninterp spec fn sha256_digest(data: Seq<u8>) -> Seq<u8>;

/// Calls `sha2::Sha256::digest` (the one-shot form of `new`, `update`, `finalize`) on `data`.
/// Trusted: the 32 returned bytes are the digest of exactly the bytes of `data`, and depend on
/// nothing else.
#[verifier::external_body]
pub(crate) fn sha256(data: &[u8]) -> (out: [u8; 32])
    ensures
        out@ == sha256_digest(data@),
{
    <sha2::Sha256 as sha2::Digest>::digest(data).into()
}

} // verus!
