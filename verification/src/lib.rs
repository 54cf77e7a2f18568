//! Coordination logic for an M-of-N Monero multisig wallet driven by a
//! stateless command-line tool: wallet setup state machine, multi-round key
//! exchange bookkeeping, transaction signature quorum tracking, and the
//! persisted record format that carries that state across process runs.
//!
//! All cryptography is performed by an external wallet-RPC service; this
//! crate only decides what to ask of it and how to record the outcome.

pub mod config;
pub mod decimal;
pub mod error;
pub mod store;
pub mod transaction;
pub mod utils;
pub mod wallet;

