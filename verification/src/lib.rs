//! Measurement and signing of SGX enclaves.
//!
//! An enclave is identified by its measurement: the digest of what the
//! processor records while the enclave is created and its pages are loaded.
//! [`hasher::Hasher`] feeds a digest those records, byte for byte.
//! [`measurement::Measurement::sign`] signs a measurement on behalf of an
//! author, and the [`signature::Signature`] that it returns has the 1808
//! bytes that the processor checks before it runs the enclave.
//!
//! Every function is verified against the contract that it carries. What
//! is taken on trust are the calls into OpenSSL, in `crypto` and `sha256`,
//! and one call of `String::push` in `number`.

pub mod author;
pub mod bytes;
pub mod crypto;
pub mod digest;
pub mod flags;
pub mod hasher;
pub mod masked;
pub mod measurement;
pub mod number;
pub mod page;
pub mod quotient;
pub mod sha256;
pub mod signature;

pub use author::Author;
pub use digest::Digest;
pub use hasher::{Hasher, InvalidSize};
pub use masked::Masked;
pub use measurement::{Measurement, Parameters};
pub use signature::Signature;
