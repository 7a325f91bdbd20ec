//! Trusted access to the two hash functions that key derivation uses.
//!
//! The digests themselves are not restated here: each is given a name, and
//! the contracts of the derivation code speak of those names.

use vstd::prelude::*;

verus! {

/// The 256-bit digest of `data`, as the outside hash function computes it.
pub uninterp spec fn sha256_of(data: Seq<u8>) -> Seq<u8>;

/// The 512-bit digest of `data`, as the outside hash function computes it.
pub uninterp spec fn sha512_of(data: Seq<u8>) -> Seq<u8>;

/// Relies on sha2::Sha256: the digest is 32 bytes and depends on the input
/// bytes alone.
#[verifier::external_body]
pub(crate) fn sha256(data: &[u8]) -> (r: Vec<u8>)
    ensures
        r@ == sha256_of(data@),
        r@.len() == 32,
{
    let digest = <sha2::Sha256 as sha2::Digest>::digest(data);
    digest.to_vec()
}

/// Relies on sha2::Sha512: the digest is 64 bytes and depends on the input
/// bytes alone.
#[verifier::external_body]
pub(crate) fn sha512(data: &[u8]) -> (r: Vec<u8>)
    ensures
        r@ == sha512_of(data@),
        r@.len() == 64,
{
    let digest = <sha2::Sha512 as sha2::Digest>::digest(data);
    digest.to_vec()
}

} // verus!
