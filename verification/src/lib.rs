pub mod blocks;
pub mod ciphers;
pub mod errors;
pub mod fishers;
pub mod hashes;
pub mod keys;
pub mod transform;
pub mod walk;
