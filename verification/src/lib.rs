//! A generic, payload-agnostic blockchain with a gossip-based peer
//! synchronization layer: content hashing, Merkle commitments, proof-of-work
//! mining, an append-only ledger with a pending-transaction pool, and the
//! message-driven node state machine that keeps independently mined chains
//! converged across peers.

pub mod block;
pub mod canon;
pub mod chain;
pub mod codec;
pub mod hash;
pub mod merkle;
pub mod messages;
pub mod node;
pub mod storage;
pub mod transaction;
