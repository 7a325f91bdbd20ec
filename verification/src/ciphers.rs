//! Trusted access to the five keyed block ciphers.
//!
//! Each cipher's block transform is a pure function of the key material and
//! the block bytes, so each direction of each family gets a name, and every
//! wrapper keys the cipher and transforms exactly one block.  The decryption
//! wrappers also record that decryption inverts encryption under the same
//! key, which is the documented contract of a block cipher.

use vstd::prelude::*;

verus! {

/// The Blowfish encryption of `block` (8 bytes) under `key` (56 bytes).
pub uninterp spec fn blowfish_enc_of(key: Seq<u8>, block: Seq<u8>) -> Seq<u8>;

/// The Blowfish decryption of `block` (8 bytes) under `key` (56 bytes).
pub uninterp spec fn blowfish_dec_of(key: Seq<u8>, block: Seq<u8>) -> Seq<u8>;

/// The Twofish encryption of `block` (16 bytes) under `key` (32 bytes).
pub uninterp spec fn twofish_enc_of(key: Seq<u8>, block: Seq<u8>) -> Seq<u8>;

/// The Twofish decryption of `block` (16 bytes) under `key` (32 bytes).
pub uninterp spec fn twofish_dec_of(key: Seq<u8>, block: Seq<u8>) -> Seq<u8>;

/// The Threefish-256 encryption of `block` (32 bytes) under `key` (32 bytes).
pub uninterp spec fn threefish256_enc_of(key: Seq<u8>, block: Seq<u8>) -> Seq<u8>;

/// The Threefish-256 decryption of `block` (32 bytes) under `key` (32 bytes).
pub uninterp spec fn threefish256_dec_of(key: Seq<u8>, block: Seq<u8>) -> Seq<u8>;

/// The Threefish-512 encryption of `block` (64 bytes) under `key` (64 bytes).
pub uninterp spec fn threefish512_enc_of(key: Seq<u8>, block: Seq<u8>) -> Seq<u8>;

/// The Threefish-512 decryption of `block` (64 bytes) under `key` (64 bytes).
pub uninterp spec fn threefish512_dec_of(key: Seq<u8>, block: Seq<u8>) -> Seq<u8>;

/// The Threefish-1024 encryption of `block` (128 bytes) under `key`
/// (128 bytes).
pub uninterp spec fn threefish1024_enc_of(key: Seq<u8>, block: Seq<u8>) -> Seq<u8>;

/// The Threefish-1024 decryption of `block` (128 bytes) under `key`
/// (128 bytes).
pub uninterp spec fn threefish1024_dec_of(key: Seq<u8>, block: Seq<u8>) -> Seq<u8>;

/// Relies on blowfish::Blowfish: `new_from_slice` accepts a 56-byte key and
/// `encrypt_block` replaces the 8-byte block with its ciphertext, which
/// depends on the key and block bytes alone.
#[verifier::external_body]
pub(crate) fn blowfish_encrypt(key: &[u8], block: &[u8]) -> (r: Vec<u8>)
    requires
        key@.len() == 56,
        block@.len() == 8,
    ensures
        r@ == blowfish_enc_of(key@, block@),
        r@.len() == 8,
{
    let cipher = <blowfish::Blowfish as blowfish::cipher::KeyInit>::new_from_slice(key).unwrap();
    let mut buf = blowfish::cipher::Block::<blowfish::Blowfish>::try_from(block).unwrap();
    blowfish::cipher::BlockCipherEncrypt::encrypt_block(&cipher, &mut buf);
    buf.to_vec()
}

/// Relies on blowfish::Blowfish: `decrypt_block` replaces the 8-byte block
/// with its plaintext, depends on the key and block bytes alone, and inverts
/// `encrypt_block` under the same key.
#[verifier::external_body]
pub(crate) fn blowfish_decrypt(key: &[u8], block: &[u8]) -> (r: Vec<u8>)
    requires
        key@.len() == 56,
        block@.len() == 8,
    ensures
        r@ == blowfish_dec_of(key@, block@),
        r@.len() == 8,
        forall|p: Seq<u8>| p.len() == 8 && block@ == blowfish_enc_of(key@, p) ==> r@ == p,
{
    let cipher = <blowfish::Blowfish as blowfish::cipher::KeyInit>::new_from_slice(key).unwrap();
    let mut buf = blowfish::cipher::Block::<blowfish::Blowfish>::try_from(block).unwrap();
    blowfish::cipher::BlockCipherDecrypt::decrypt_block(&cipher, &mut buf);
    buf.to_vec()
}

/// Relies on twofish::Twofish: `new_from_slice` accepts a 32-byte key and
/// `encrypt_block` replaces the 16-byte block with its ciphertext, which
/// depends on the key and block bytes alone.
#[verifier::external_body]
pub(crate) fn twofish_encrypt(key: &[u8], block: &[u8]) -> (r: Vec<u8>)
    requires
        key@.len() == 32,
        block@.len() == 16,
    ensures
        r@ == twofish_enc_of(key@, block@),
        r@.len() == 16,
{
    let cipher = <twofish::Twofish as twofish::cipher::KeyInit>::new_from_slice(key).unwrap();
    let mut buf = twofish::cipher::Block::<twofish::Twofish>::try_from(block).unwrap();
    twofish::cipher::BlockCipherEncrypt::encrypt_block(&cipher, &mut buf);
    buf.to_vec()
}

/// Relies on twofish::Twofish: `decrypt_block` replaces the 16-byte block
/// with its plaintext, depends on the key and block bytes alone, and inverts
/// `encrypt_block` under the same key.
#[verifier::external_body]
pub(crate) fn twofish_decrypt(key: &[u8], block: &[u8]) -> (r: Vec<u8>)
    requires
        key@.len() == 32,
        block@.len() == 16,
    ensures
        r@ == twofish_dec_of(key@, block@),
        r@.len() == 16,
        forall|p: Seq<u8>| p.len() == 16 && block@ == twofish_enc_of(key@, p) ==> r@ == p,
{
    let cipher = <twofish::Twofish as twofish::cipher::KeyInit>::new_from_slice(key).unwrap();
    let mut buf = twofish::cipher::Block::<twofish::Twofish>::try_from(block).unwrap();
    twofish::cipher::BlockCipherDecrypt::decrypt_block(&cipher, &mut buf);
    buf.to_vec()
}

/// Relies on threefish::Threefish256: `new_from_slice` accepts a 32-byte key
/// and `encrypt_block` replaces the 32-byte block with its ciphertext, which
/// depends on the key and block bytes alone.
#[verifier::external_body]
pub(crate) fn threefish256_encrypt(key: &[u8], block: &[u8]) -> (r: Vec<u8>)
    requires
        key@.len() == 32,
        block@.len() == 32,
    ensures
        r@ == threefish256_enc_of(key@, block@),
        r@.len() == 32,
{
    let cipher =
        <threefish::Threefish256 as threefish::cipher::KeyInit>::new_from_slice(key).unwrap();
    let mut buf = threefish::cipher::Block::<threefish::Threefish256>::try_from(block).unwrap();
    threefish::cipher::BlockCipherEncrypt::encrypt_block(&cipher, &mut buf);
    buf.to_vec()
}

/// Relies on threefish::Threefish256: `decrypt_block` replaces the 32-byte
/// block with its plaintext, depends on the key and block bytes alone, and
/// inverts `encrypt_block` under the same key.
#[verifier::external_body]
pub(crate) fn threefish256_decrypt(key: &[u8], block: &[u8]) -> (r: Vec<u8>)
    requires
        key@.len() == 32,
        block@.len() == 32,
    ensures
        r@ == threefish256_dec_of(key@, block@),
        r@.len() == 32,
        forall|p: Seq<u8>| p.len() == 32 && block@ == threefish256_enc_of(key@, p) ==> r@ == p,
{
    let cipher =
        <threefish::Threefish256 as threefish::cipher::KeyInit>::new_from_slice(key).unwrap();
    let mut buf = threefish::cipher::Block::<threefish::Threefish256>::try_from(block).unwrap();
    threefish::cipher::BlockCipherDecrypt::decrypt_block(&cipher, &mut buf);
    buf.to_vec()
}

/// Relies on threefish::Threefish512: `new_from_slice` accepts a 64-byte key
/// and `encrypt_block` replaces the 64-byte block with its ciphertext, which
/// depends on the key and block bytes alone.
#[verifier::external_body]
pub(crate) fn threefish512_encrypt(key: &[u8], block: &[u8]) -> (r: Vec<u8>)
    requires
        key@.len() == 64,
        block@.len() == 64,
    ensures
        r@ == threefish512_enc_of(key@, block@),
        r@.len() == 64,
{
    let cipher =
        <threefish::Threefish512 as threefish::cipher::KeyInit>::new_from_slice(key).unwrap();
    let mut buf = threefish::cipher::Block::<threefish::Threefish512>::try_from(block).unwrap();
    threefish::cipher::BlockCipherEncrypt::encrypt_block(&cipher, &mut buf);
    buf.to_vec()
}

/// Relies on threefish::Threefish512: `decrypt_block` replaces the 64-byte
/// block with its plaintext, depends on the key and block bytes alone, and
/// inverts `encrypt_block` under the same key.
#[verifier::external_body]
pub(crate) fn threefish512_decrypt(key: &[u8], block: &[u8]) -> (r: Vec<u8>)
    requires
        key@.len() == 64,
        block@.len() == 64,
    ensures
        r@ == threefish512_dec_of(key@, block@),
        r@.len() == 64,
        forall|p: Seq<u8>| p.len() == 64 && block@ == threefish512_enc_of(key@, p) ==> r@ == p,
{
    let cipher =
        <threefish::Threefish512 as threefish::cipher::KeyInit>::new_from_slice(key).unwrap();
    let mut buf = threefish::cipher::Block::<threefish::Threefish512>::try_from(block).unwrap();
    threefish::cipher::BlockCipherDecrypt::decrypt_block(&cipher, &mut buf);
    buf.to_vec()
}

/// Relies on threefish::Threefish1024: `new_from_slice` accepts a 128-byte
/// key and `encrypt_block` replaces the 128-byte block with its ciphertext,
/// which depends on the key and block bytes alone.
#[verifier::external_body]
pub(crate) fn threefish1024_encrypt(key: &[u8], block: &[u8]) -> (r: Vec<u8>)
    requires
        key@.len() == 128,
        block@.len() == 128,
    ensures
        r@ == threefish1024_enc_of(key@, block@),
        r@.len() == 128,
{
    let cipher =
        <threefish::Threefish1024 as threefish::cipher::KeyInit>::new_from_slice(key).unwrap();
    let mut buf = threefish::cipher::Block::<threefish::Threefish1024>::try_from(block).unwrap();
    threefish::cipher::BlockCipherEncrypt::encrypt_block(&cipher, &mut buf);
    buf.to_vec()
}

/// Relies on threefish::Threefish1024: `decrypt_block` replaces the 128-byte
/// block with its plaintext, depends on the key and block bytes alone, and
/// inverts `encrypt_block` under the same key.
#[verifier::external_body]
pub(crate) fn threefish1024_decrypt(key: &[u8], block: &[u8]) -> (r: Vec<u8>)
    requires
        key@.len() == 128,
        block@.len() == 128,
    ensures
        r@ == threefish1024_dec_of(key@, block@),
        r@.len() == 128,
        forall|p: Seq<u8>| p.len() == 128 && block@ == threefish1024_enc_of(key@, p) ==> r@ == p,
{
    let cipher =
        <threefish::Threefish1024 as threefish::cipher::KeyInit>::new_from_slice(key).unwrap();
    let mut buf = threefish::cipher::Block::<threefish::Threefish1024>::try_from(block).unwrap();
    threefish::cipher::BlockCipherDecrypt::decrypt_block(&cipher, &mut buf);
    buf.to_vec()
}

} // verus!
