//! Verification of compressed-token leaf claims against a Merkle tree root.
//!
//! Given an untrusted metadata record and a caller's claim (root, content
//! hash, creator hash, nonce, index), this library recomputes the canonical
//! content hash, rebuilds the leaf node that should stand at the claimed
//! position, and checks the node against the claimed root through an
//! inclusion proof supplied by the caller.

pub mod types;
pub mod encode;
pub mod digest;
pub mod leaf;
pub mod inclusion;
pub mod gate;
