//! An append-only ledger: proof-of-work blocks linked by hash, persisted in a
//! key-value store, with unspent-output resolution over the chain's history.

pub mod block;
pub mod blockchain;
pub mod error;
pub mod hashing;
pub mod transaction;
pub mod utxo;
