//! The error kinds that the key-derivation and file-transform pipeline can
//! surface.

use vstd::prelude::*;

verus! {

/// What can go wrong while deriving a key or transforming a file.
///
/// `Io` is raised by the callers that touch the filesystem; the verified
/// functions themselves never produce it.
#[derive(Clone, Copy, Debug, PartialEq, Eq, Structural)]
pub enum FishError {
    /// The algorithm selector does not name a supported cipher family.
    InvalidAlgorithm,
    /// The requested block width does not match any supported Threefish
    /// variant.
    InvalidBlockSize,
    /// An open, read or write on the filesystem failed.
    Io,
    /// A block handed to a cipher was not exactly one block wide.
    BlockSizeMismatch,
}

impl FishError {
    /// A short human-readable description of the error.
    pub fn describe(&self) -> (r: &'static str)
        ensures
            *self is InvalidAlgorithm ==> r@ == "invalid algorithm"@,
            *self is InvalidBlockSize ==> r@ == "invalid block size"@,
            *self is Io ==> r@ == "io failure"@,
            *self is BlockSizeMismatch ==> r@ == "block size mismatch"@,
    {
        match self {
            FishError::InvalidAlgorithm => "invalid algorithm",
            FishError::InvalidBlockSize => "invalid block size",
            FishError::Io => "io failure",
            FishError::BlockSizeMismatch => "block size mismatch",
        }
    }
}

} // verus!
