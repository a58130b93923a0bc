//! The operations that the service offers on a ledger, and the shapes of
//! its requests and replies.

use vstd::prelude::*;
use vstd::string::*;

use crate::blockchain::chain::Blockchain;
use crate::blockchain::digest::FINGERPRINT_LENGTH;
use crate::blockchain::text::{decimal, decimal_string};
use crate::blockchain::{Block, Transaction};
use crate::errors::{ApiError, ApiResult};

verus! {

/// A transfer, as a caller submits it.
pub struct TransactionRequest {
    pub sender: String,
    pub receiver: String,
    pub amount: u64,
}

/// The envelope of every reply: `data` on success, `error` on failure.
pub struct ApiResponse<T> {
    pub success: bool,
    pub data: Option<T>,
    pub error: Option<String>,
}

/// The identity that blocks are mined for.
pub open spec fn miner_identity() -> Seq<char> {
    "miner-address"@
}

/// What a caller is told when a transfer was admitted.
pub open spec fn admitted_notice() -> Seq<char> {
    "Transaction added to pending transactions"@
}

/// What a caller is told when there is no block `index`.
pub open spec fn missing_block_notice(index: u64) -> Seq<char> {
    "Block at index "@ + decimal(index as nat) + " not found"@
}

impl<T> ApiResponse<T> {
    /// The reply that carries `data`.
    pub fn ok(data: T) -> (reply: Self)
        ensures
            reply.success,
            reply.data == Some(data),
            reply.error is None,
    {
        ApiResponse { success: true, data: Some(data), error: None }
    }

    /// The reply that carries a failure.
    pub fn failed(error: String) -> (reply: Self)
        ensures
            !reply.success,
            reply.data is None,
            reply.error == Some(error),
    {
        ApiResponse { success: false, data: None, error: Some(error) }
    }
}

/// Submits a transfer: stamps it with a fresh identifier and the current
/// time and offers it to the pool. A transfer that the ledger turns down
/// leaves the ledger as it was and is reported with the reason in words.
pub fn add_transaction(ledger: &mut Blockchain, request: TransactionRequest) -> (outcome: ApiResult<
    ApiResponse<String>,
>)
    ensures
        old(ledger)@.verdict(request.sender@, request.receiver@, request.amount) is Ok ==> {
            &&& outcome matches Ok(reply)
            &&& reply.success
            &&& reply.data matches Some(text)
            &&& text@ == admitted_notice()
            &&& reply.error is None
            &&& final(ledger)@.pending.len() == old(ledger)@.pending.len() + 1
            &&& final(ledger)@ == old(ledger)@.with_pending(final(ledger)@.pending.last())
            &&& final(ledger)@.pending.last().sender == request.sender@
            &&& final(ledger)@.pending.last().receiver == request.receiver@
            &&& final(ledger)@.pending.last().amount == request.amount
            &&& final(ledger)@.pending.last().signature.len() == 0
        },
        old(ledger)@.verdict(request.sender@, request.receiver@, request.amount) matches Err(
            reason,
        ) ==> {
            &&& outcome matches Err(ApiError::TransactionError(text))
            &&& text@ == reason.wording()
            &&& *final(ledger) == *old(ledger)
        },
        old(ledger)@.is_linked() ==> final(ledger)@.is_linked(),
        old(ledger)@.is_sound() ==> final(ledger)@.is_sound(),
{
    let transaction = Transaction::new(request.sender, request.receiver, request.amount);
    match ledger.add_transaction(transaction) {
        Ok(_) => Ok(ApiResponse::ok(String::from_str("Transaction added to pending transactions"))),
        Err(reason) => Err(ApiError::TransactionError(reason.message())),
    }
}

/// Looks up block `index`.
pub fn get_block(ledger: &Blockchain, index: u64) -> (outcome: ApiResult<&Block>)
    ensures
        index < ledger.chain@.len() ==> {
            &&& outcome matches Ok(block)
            &&& *block == ledger.chain@[index as int]
        },
        index >= ledger.chain@.len() ==> {
            &&& outcome matches Err(ApiError::NotFound(text))
            &&& text@ == missing_block_notice(index)
        },
{
    if index < ledger.chain.len() as u64 {
        Ok(&ledger.chain[index as usize])
    } else {
        let mut text = String::from_str("Block at index ");
        text.append(decimal_string(index).as_str());
        text.append(" not found");
        Err(ApiError::NotFound(text))
    }
}

/// Mines the pool into a new block for the service's miner identity.
pub fn mine_block(ledger: &mut Blockchain) -> (block: Block)
    requires
        old(ledger)@.chain.len() > 0,
    ensures
        block@.transactions.len() == old(ledger)@.pending.len() + 1,
        block@.transactions.last().sender.len() == 0,
        block@.transactions.last().receiver == miner_identity(),
        block@.transactions.last().amount == old(ledger)@.mining_reward,
        block@.is_mined_from(
            old(ledger)@.candidate(block@.transactions.last(), block@.timestamp),
            old(ledger)@.difficulty,
        ),
        block@.hash.len() == FINGERPRINT_LENGTH,
        final(ledger)@ == old(ledger)@.with_block(block@),
        old(ledger)@.is_linked() ==> final(ledger)@.is_linked(),
        old(ledger)@.is_sound() ==> final(ledger)@.is_sound(),
{
    proof {
        reveal_strlit("miner-address");
    }
    ledger.mine_pending_transactions(String::from_str("miner-address"))
}

/// The balance of `address`, in a reply.
pub fn get_balance(ledger: &Blockchain, address: &str) -> (reply: ApiResponse<u64>)
    ensures
        reply.success,
        reply.data == Some(ledger@.balance(address@) as u64),
        reply.error is None,
{
    ApiResponse::ok(ledger.get_balance(address))
}

/// Whether the ledger is valid, in a reply.
pub fn validate_chain(ledger: &Blockchain) -> (reply: ApiResponse<bool>)
    ensures
        reply.success,
        reply.data == Some(ledger@.is_valid()),
        reply.error is None,
{
    ApiResponse::ok(ledger.is_chain_valid())
}

} // verus!
