//! Cryptographic primitives, each proved against its standard's definition.

pub mod gf256;
pub mod kdf;
pub mod sha256;
pub mod words;
pub mod aes;
