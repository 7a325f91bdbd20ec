//! The cipher selector: a closed union over the five supported cipher
//! variants, each dispatching one-block encryption and decryption.

use vstd::prelude::*;

use crate::ciphers::blowfish_dec_of;
use crate::ciphers::blowfish_decrypt;
use crate::ciphers::blowfish_enc_of;
use crate::ciphers::blowfish_encrypt;
use crate::ciphers::threefish1024_dec_of;
use crate::ciphers::threefish1024_decrypt;
use crate::ciphers::threefish1024_enc_of;
use crate::ciphers::threefish1024_encrypt;
use crate::ciphers::threefish256_dec_of;
use crate::ciphers::threefish256_decrypt;
use crate::ciphers::threefish256_enc_of;
use crate::ciphers::threefish256_encrypt;
use crate::ciphers::threefish512_dec_of;
use crate::ciphers::threefish512_decrypt;
use crate::ciphers::threefish512_enc_of;
use crate::ciphers::threefish512_encrypt;
use crate::ciphers::twofish_dec_of;
use crate::ciphers::twofish_decrypt;
use crate::ciphers::twofish_enc_of;
use crate::ciphers::twofish_encrypt;
use crate::errors::FishError;

verus! {

/// A keyed cipher variant.  Each variant carries the key material that the
/// block transforms are keyed with; the variant fixes the block width.
pub enum Fishers {
    /// Blowfish with a 56-byte key and 8-byte blocks.
    Blowfish(Vec<u8>),
    /// Twofish with a 32-byte key and 16-byte blocks.
    Twofish(Vec<u8>),
    /// Threefish-256 with a 32-byte key and 32-byte blocks.
    Threefish256(Vec<u8>),
    /// Threefish-512 with a 64-byte key and 64-byte blocks.
    Threefish512(Vec<u8>),
    /// Threefish-1024 with a 128-byte key and 128-byte blocks.
    Threefish1024(Vec<u8>),
}

impl Fishers {
    /// The key material this variant was built with.
    pub open spec fn spec_key(&self) -> Seq<u8> {
        match self {
            Fishers::Blowfish(k) => k@,
            Fishers::Twofish(k) => k@,
            Fishers::Threefish256(k) => k@,
            Fishers::Threefish512(k) => k@,
            Fishers::Threefish1024(k) => k@,
        }
    }

    /// The block width, in bytes, that this variant transforms.
    pub open spec fn spec_width(&self) -> nat {
        match self {
            Fishers::Blowfish(_) => 8,
            Fishers::Twofish(_) => 16,
            Fishers::Threefish256(_) => 32,
            Fishers::Threefish512(_) => 64,
            Fishers::Threefish1024(_) => 128,
        }
    }

    /// The key size, in bytes, that this variant requires.
    pub open spec fn spec_key_len(&self) -> nat {
        match self {
            Fishers::Blowfish(_) => 56,
            Fishers::Twofish(_) => 32,
            Fishers::Threefish256(_) => 32,
            Fishers::Threefish512(_) => 64,
            Fishers::Threefish1024(_) => 128,
        }
    }

    /// The key material has exactly the size the cipher requires.
    pub open spec fn wf(&self) -> bool {
        self.spec_key().len() == self.spec_key_len()
    }

    /// The one-block encryption this variant performs.
    pub open spec fn spec_encrypt_block(&self, b: Seq<u8>) -> Seq<u8> {
        match self {
            Fishers::Blowfish(k) => blowfish_enc_of(k@, b),
            Fishers::Twofish(k) => twofish_enc_of(k@, b),
            Fishers::Threefish256(k) => threefish256_enc_of(k@, b),
            Fishers::Threefish512(k) => threefish512_enc_of(k@, b),
            Fishers::Threefish1024(k) => threefish1024_enc_of(k@, b),
        }
    }

    /// The one-block decryption this variant performs.
    pub open spec fn spec_decrypt_block(&self, b: Seq<u8>) -> Seq<u8> {
        match self {
            Fishers::Blowfish(k) => blowfish_dec_of(k@, b),
            Fishers::Twofish(k) => twofish_dec_of(k@, b),
            Fishers::Threefish256(k) => threefish256_dec_of(k@, b),
            Fishers::Threefish512(k) => threefish512_dec_of(k@, b),
            Fishers::Threefish1024(k) => threefish1024_dec_of(k@, b),
        }
    }

    /// The one-block transform in the chosen direction.
    pub open spec fn spec_transform_block(&self, encrypt: bool, b: Seq<u8>) -> Seq<u8> {
        if encrypt {
            self.spec_encrypt_block(b)
        } else {
            self.spec_decrypt_block(b)
        }
    }

    /// The block width as an executable value.
    pub fn width(&self) -> (w: usize)
        ensures
            w == self.spec_width(),
    {
        match self {
            Fishers::Blowfish(_) => 8,
            Fishers::Twofish(_) => 16,
            Fishers::Threefish256(_) => 32,
            Fishers::Threefish512(_) => 64,
            Fishers::Threefish1024(_) => 128,
        }
    }

    /// The key material as an executable value.
    pub fn key_bytes(&self) -> (k: &Vec<u8>)
        ensures
            k@ == self.spec_key(),
    {
        match self {
            Fishers::Blowfish(k) => k,
            Fishers::Twofish(k) => k,
            Fishers::Threefish256(k) => k,
            Fishers::Threefish512(k) => k,
            Fishers::Threefish1024(k) => k,
        }
    }

    /// Encrypt one block in place.  The block must be exactly one block
    /// wide; otherwise nothing is changed and `BlockSizeMismatch` comes
    /// back.
    pub fn encrypt_block(&self, block: &mut Vec<u8>) -> (r: Result<bool, FishError>)
        requires
            self.wf(),
        ensures
            match r {
                Ok(ok) => {
                    &&& ok == true
                    &&& old(block)@.len() == self.spec_width()
                    &&& final(block)@ == self.spec_encrypt_block(old(block)@)
                    &&& final(block)@.len() == self.spec_width()
                },
                Err(e) => {
                    &&& e == FishError::BlockSizeMismatch
                    &&& old(block)@.len() != self.spec_width()
                    &&& final(block)@ == old(block)@
                },
            },
    {
        let w = self.width();
        if block.len() != w {
            return Err(FishError::BlockSizeMismatch);
        }
        let out = match self {
            Fishers::Blowfish(k) => blowfish_encrypt(k.as_slice(), block.as_slice()),
            Fishers::Twofish(k) => twofish_encrypt(k.as_slice(), block.as_slice()),
            Fishers::Threefish256(k) => threefish256_encrypt(k.as_slice(), block.as_slice()),
            Fishers::Threefish512(k) => threefish512_encrypt(k.as_slice(), block.as_slice()),
            Fishers::Threefish1024(k) => threefish1024_encrypt(k.as_slice(), block.as_slice()),
        };
        *block = out;
        Ok(true)
    }

    /// Decrypt one block in place.  Under the same key, decryption inverts
    /// encryption: a block that is the encryption of some `p` comes back as
    /// exactly `p`.
    pub fn decrypt_block(&self, block: &mut Vec<u8>) -> (r: Result<bool, FishError>)
        requires
            self.wf(),
        ensures
            match r {
                Ok(ok) => {
                    &&& ok == true
                    &&& old(block)@.len() == self.spec_width()
                    &&& final(block)@ == self.spec_decrypt_block(old(block)@)
                    &&& final(block)@.len() == self.spec_width()
                    &&& forall|p: Seq<u8>|
                        p.len() == self.spec_width() && old(block)@ == self.spec_encrypt_block(p)
                            ==> final(block)@ == p
                },
                Err(e) => {
                    &&& e == FishError::BlockSizeMismatch
                    &&& old(block)@.len() != self.spec_width()
                    &&& final(block)@ == old(block)@
                },
            },
    {
        let w = self.width();
        if block.len() != w {
            return Err(FishError::BlockSizeMismatch);
        }
        let out = match self {
            Fishers::Blowfish(k) => blowfish_decrypt(k.as_slice(), block.as_slice()),
            Fishers::Twofish(k) => twofish_decrypt(k.as_slice(), block.as_slice()),
            Fishers::Threefish256(k) => threefish256_decrypt(k.as_slice(), block.as_slice()),
            Fishers::Threefish512(k) => threefish512_decrypt(k.as_slice(), block.as_slice()),
            Fishers::Threefish1024(k) => threefish1024_decrypt(k.as_slice(), block.as_slice()),
        };
        *block = out;
        Ok(true)
    }
}

} // verus!
