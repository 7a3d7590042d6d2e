//! Authenticated state proofs: fixed-width hash values, domain-separated
//! hashing, Merkle node digests and the sparse Merkle proof verifier.

pub mod hash;
pub mod hasher;
pub mod blob;
pub mod node;
pub mod sparse_merkle;
pub mod range;
pub mod accumulator;
pub mod config;
