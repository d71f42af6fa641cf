//! Core of a privacy-preserving messaging and value-transfer protocol:
//! a self-describing binary envelope codec, stateless key-derivation and
//! masking transforms, a hop-bounded routing shell, and the fixed-layout
//! instruction formats that carry them.

pub mod aead;
pub mod b64;
pub mod bytes;
pub mod envelope;
pub mod escrow;
pub mod hashing;
pub mod instructions;
pub mod kdf;
pub mod merkle;
pub mod relay;
