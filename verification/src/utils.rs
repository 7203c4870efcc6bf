//! Primitives the rest of the crate is built on: the digest function and the
//! textual form of digests.

pub mod crypto;
pub mod encoding;
