//! A verified vector-commitment layer: a binary Merkle hash tree over rows of
//! Goldilocks field elements, with a configurable-height cap, inclusion-proof
//! generation and verification, and the hash permutations the tree is built on.

pub mod extension;
pub mod field;
pub mod gates;
pub mod hash_types;
pub mod merkle_proofs;
pub mod merkle_tree;
pub mod monolith_goldilocks;
pub mod poseidon2;
pub mod pre_compute;
pub mod simple_keccak;
pub mod util;

