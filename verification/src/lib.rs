//! A single-node ledger engine: hash-linked blocks of value transfers, sealed
//! by a proof-of-work search, with balances derived by replaying the chain.

pub mod api;
pub mod blockchain;
pub mod errors;
pub mod storage;
