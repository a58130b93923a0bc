//! The failures that the service reports to its callers.

use vstd::prelude::*;
use vstd::string::*;

verus! {

/// A failure of a request, with its reason in words.
#[derive(Debug)]
pub enum ApiError {
    BlockchainError(String),
    TransactionError(String),
    StorageError(String),
    NotFound(String),
    Internal(String),
}

/// What a request gives: its result, or the failure.
pub type ApiResult<T> = Result<T, ApiError>;

impl ApiError {
    /// The HTTP status that goes with the failure: 400 for a request that
    /// the ledger turns down, 404 for what is not there, 500 for a fault
    /// of the service itself.
    pub open spec fn status(self) -> u16 {
        match self {
            ApiError::BlockchainError(_) => 400,
            ApiError::TransactionError(_) => 400,
            ApiError::StorageError(_) => 500,
            ApiError::NotFound(_) => 404,
            ApiError::Internal(_) => 500,
        }
    }

    /// The reason that the failure carries.
    pub open spec fn reason(self) -> Seq<char> {
        match self {
            ApiError::BlockchainError(text) => text@,
            ApiError::TransactionError(text) => text@,
            ApiError::StorageError(text) => text@,
            ApiError::NotFound(text) => text@,
            ApiError::Internal(text) => text@,
        }
    }

    /// The HTTP status that goes with the failure.
    pub fn status_code(&self) -> (code: u16)
        ensures
            code == self.status(),
    {
        match self {
            ApiError::BlockchainError(_) => 400,
            ApiError::TransactionError(_) => 400,
            ApiError::StorageError(_) => 500,
            ApiError::NotFound(_) => 404,
            ApiError::Internal(_) => 500,
        }
    }

    /// The reason that the failure carries.
    pub fn message(&self) -> (text: String)
        ensures
            text@ == self.reason(),
    {
        match self {
            ApiError::BlockchainError(text) => text.clone(),
            ApiError::TransactionError(text) => text.clone(),
            ApiError::StorageError(text) => text.clone(),
            ApiError::NotFound(text) => text.clone(),
            ApiError::Internal(text) => text.clone(),
        }
    }

    /// The failure to report when the snapshot could not be written.
    pub fn save_failed(cause: &str) -> (error: Self)
        ensures
            ({
                &&& error matches ApiError::StorageError(text)
                &&& text@ == "Failed to save blockchain: "@ + cause@
            }),
    {
        let mut text = String::from_str("Failed to save blockchain: ");
        text.append(cause);
        ApiError::StorageError(text)
    }
}

} // verus!
