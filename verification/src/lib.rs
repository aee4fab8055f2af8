//! Core of a peer-to-peer base node for a proof-of-work blockchain:
//! the block and transaction data model, an append-only chain store with
//! Merkle accumulators and bounded rewind history, the time-locked
//! transaction pool, the linear-weighted-moving-average difficulty
//! retargeting engine, and the synchronization state machine.
//!
//! Network transport, persistence and cryptographic primitives are
//! external collaborators: the library models their data as plain values
//! and exposes the decision logic over those values.

pub mod base_node;
pub mod blocks;
pub mod chain_storage;
pub mod consensus;
pub mod hashing;
pub mod identity;
pub mod lwma;
pub mod outbound_mock;
pub mod peers;
pub mod pending_pool;
pub mod transactions;
pub mod validation;
