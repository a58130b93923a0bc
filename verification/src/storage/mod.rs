//! Where the snapshot of a ledger is kept.

pub mod file_store;

pub use file_store::FileStore;
