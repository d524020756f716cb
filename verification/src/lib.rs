//! Core logic of a trust-minimized Bitcoin bridge: an append-only Merkle
//! accumulator over deposit commitments, deterministic construction of the
//! presigned transaction graph for a deposit, and the verifier-side watcher
//! that tracks connector-tree UTXOs, checks binary splits, and races the
//! operator for preimage-spendable outputs.
//!
//! Chain access, key handling, taproot script derivation and signing are the
//! embedding layer's business: the functions here work on plain values that
//! such a layer gathers and hands in.

pub mod chain;
pub mod constants;
pub mod errors;
pub mod hash;
pub mod merkle;
pub mod presign;
pub mod watcher;
