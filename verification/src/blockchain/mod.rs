//! The ledger core: transactions, blocks, the proof-of-work search and the
//! chain state machine.

pub mod balance;
pub mod block;
pub mod chain;
pub mod conservation;
pub mod digest;
pub mod integrity;
pub mod proof_of_work;
pub mod text;
pub mod timestamp;
pub mod transaction;

pub use block::Block;
pub use chain::Blockchain;
pub use timestamp::Timestamp;
pub use transaction::Transaction;
