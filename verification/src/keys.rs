//! Key derivation: a passphrase and an algorithm selector become
//! cipher-ready key material through one or two hash passes.

use vstd::prelude::*;
use vstd::slice::slice_subrange;
use vstd::slice::slice_to_vec;

use crate::errors::FishError;
use crate::fishers::Fishers;
use crate::hashes::sha256;
use crate::hashes::sha256_of;
use crate::hashes::sha512;
use crate::hashes::sha512_of;

verus! {

/// The algorithm selector that names Blowfish.
pub const ALG_BLOWFISH: u8 = 0;

/// The algorithm selector that names Twofish.
pub const ALG_TWOFISH: u8 = 1;

/// The algorithm selector that names the Threefish family.
pub const ALG_THREEFISH: u8 = 2;

/// Whether the selector pair names a supported cipher variant.
pub open spec fn spec_supported(alg: u8, block_size: usize) -> bool {
    ||| alg == ALG_BLOWFISH
    ||| alg == ALG_TWOFISH
    ||| (alg == ALG_THREEFISH && (block_size == 32 || block_size == 64 || block_size == 128))
}

/// The key material that derivation produces for a supported selector pair.
pub open spec fn spec_derived_key(alg: u8, block_size: usize, pass: Seq<u8>) -> Seq<u8>
    recommends
        spec_supported(alg, block_size),
{
    if alg == ALG_BLOWFISH {
        sha512_of(pass).take(56)
    } else if alg == ALG_TWOFISH {
        sha256_of(pass)
    } else if block_size == 32 {
        sha256_of(pass)
    } else if block_size == 64 {
        sha512_of(pass)
    } else {
        sha512_of(pass) + sha512_of(sha512_of(pass))
    }
}

/// Whether `f` is the cipher variant that the selector pair names.
pub open spec fn spec_selected(alg: u8, block_size: usize, f: Fishers) -> bool {
    match f {
        Fishers::Blowfish(_) => alg == ALG_BLOWFISH,
        Fishers::Twofish(_) => alg == ALG_TWOFISH,
        Fishers::Threefish256(_) => alg == ALG_THREEFISH && block_size == 32,
        Fishers::Threefish512(_) => alg == ALG_THREEFISH && block_size == 64,
        Fishers::Threefish1024(_) => alg == ALG_THREEFISH && block_size == 128,
    }
}

/// Derive cipher-ready key material from a passphrase.
///
/// Blowfish keeps only the first 56 bytes of the 512-bit digest; Twofish and
/// Threefish-256 use the full 256-bit digest; Threefish-512 uses the full
/// 512-bit digest; Threefish-1024 concatenates the 512-bit digest with the
/// digest of that digest.  The passphrase is taken literally: callers that
/// allow a passphrase file substitute its contents before calling.
pub fn generate_key(alg: u8, block_size: usize, passphrase: &[u8]) -> (r: Result<
    Fishers,
    FishError,
>)
    ensures
        r is Ok <==> spec_supported(alg, block_size),
        match r {
            Ok(f) => {
                &&& f.wf()
                &&& spec_selected(alg, block_size, f)
                &&& f.spec_key() == spec_derived_key(alg, block_size, passphrase@)
            },
            Err(e) => {
                &&& (e == FishError::InvalidBlockSize <==> alg == ALG_THREEFISH)
                &&& (e == FishError::InvalidAlgorithm <==> alg != ALG_THREEFISH)
            },
        },
{
    if alg == ALG_BLOWFISH {
        let digest = sha512(passphrase);
        let key = slice_to_vec(slice_subrange(digest.as_slice(), 0, 56));
        Ok(Fishers::Blowfish(key))
    } else if alg == ALG_TWOFISH {
        Ok(Fishers::Twofish(sha256(passphrase)))
    } else if alg == ALG_THREEFISH {
        if block_size == 32 {
            Ok(Fishers::Threefish256(sha256(passphrase)))
        } else if block_size == 64 {
            Ok(Fishers::Threefish512(sha512(passphrase)))
        } else if block_size == 128 {
            let mut key = sha512(passphrase);
            let mut second = sha512(key.as_slice());
            key.append(&mut second);
            Ok(Fishers::Threefish1024(key))
        } else {
            Err(FishError::InvalidBlockSize)
        }
    } else {
        Err(FishError::InvalidAlgorithm)
    }
}

/// Law: key derivation is deterministic.  Two derivations from the same
/// selector pair and the same passphrase bytes name the same key material.
pub proof fn lemma_derivation_deterministic(
    alg: u8,
    block_size: usize,
    pass1: Seq<u8>,
    pass2: Seq<u8>,
)
    requires
        pass1 == pass2,
    ensures
        spec_derived_key(alg, block_size, pass1) == spec_derived_key(alg, block_size, pass2),
{
}

} // verus!
