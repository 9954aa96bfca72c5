//! Stake-weighted voting on a per-epoch rewards Merkle root, and the claim
//! bookkeeping that turns an agreed root into at-most-once token payouts.
//!
//! The crate has four parts:
//! - `hashing`: the keccak-256 digest the whole system is built on;
//! - `merkle`: recomputing a Merkle root from a leaf and a sibling path;
//! - `ballot`: the epoch-scoped, stake-weighted voting state machine;
//! - `rewards`: the root store and the cumulative claim ledger.

pub mod ballot;
pub mod hashing;
pub mod merkle;
pub mod rewards;

pub use merkle::recompute_root;
