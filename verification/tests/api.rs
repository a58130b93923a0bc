use ledger_engine::api::{
    add_transaction, get_balance, get_block, mine_block, validate_chain, ApiResponse,
    TransactionRequest,
};
use ledger_engine::blockchain::Blockchain;
use ledger_engine::errors::ApiError;
use ledger_engine::storage::FileStore;

fn request(sender: &str, receiver: &str, amount: u64) -> TransactionRequest {
    TransactionRequest { sender: String::from(sender), receiver: String::from(receiver), amount }
}

#[test]
fn status_codes_of_failures() {
    assert_eq!(ApiError::BlockchainError(String::from("x")).status_code(), 400);
    assert_eq!(ApiError::TransactionError(String::from("x")).status_code(), 400);
    assert_eq!(ApiError::StorageError(String::from("x")).status_code(), 500);
    assert_eq!(ApiError::NotFound(String::from("x")).status_code(), 404);
    assert_eq!(ApiError::Internal(String::from("x")).status_code(), 500);
}

#[test]
fn failures_carry_their_reason() {
    assert_eq!(ApiError::BlockchainError(String::from("a")).message(), "a");
    assert_eq!(ApiError::TransactionError(String::from("b")).message(), "b");
    assert_eq!(ApiError::StorageError(String::from("c")).message(), "c");
    assert_eq!(ApiError::NotFound(String::from("d")).message(), "d");
    assert_eq!(ApiError::Internal(String::from("e")).message(), "e");
}

#[test]
fn save_failure_names_its_cause() {
    let error = ApiError::save_failed("disk full");
    assert!(matches!(&error, ApiError::StorageError(text) if text == "Failed to save blockchain: disk full"));
    assert_eq!(error.status_code(), 500);
}

#[test]
fn reply_envelopes() {
    let good: ApiResponse<u64> = ApiResponse::ok(5);
    assert!(good.success);
    assert_eq!(good.data, Some(5));
    assert_eq!(good.error, None);
    let bad: ApiResponse<u64> = ApiResponse::failed(String::from("no"));
    assert!(!bad.success);
    assert_eq!(bad.data, None);
    assert_eq!(bad.error, Some(String::from("no")));
}

#[test]
fn submitted_transfer_is_admitted_with_a_notice() {
    let mut ledger = Blockchain::new_with_difficulty(1);
    mine_block(&mut ledger);
    let outcome = add_transaction(&mut ledger, request("miner-address", "bob", 40));
    let reply = outcome.expect("the transfer is covered");
    assert!(reply.success);
    assert_eq!(reply.data, Some(String::from("Transaction added to pending transactions")));
    assert_eq!(reply.error, None);
    assert_eq!(ledger.pending_transactions.len(), 1);
    assert_eq!(ledger.pending_transactions[0].sender, "miner-address");
    assert_eq!(ledger.pending_transactions[0].receiver, "bob");
    assert_eq!(ledger.pending_transactions[0].amount, 40);
    assert_eq!(ledger.pending_transactions[0].signature, "");
    assert_eq!(ledger.pending_transactions[0].id.chars().count(), 36);
}

#[test]
fn submitted_transfer_without_cover_is_a_transaction_error() {
    let mut ledger = Blockchain::new_with_difficulty(1);
    let outcome = add_transaction(&mut ledger, request("alice", "bob", 50));
    assert!(matches!(&outcome, Err(ApiError::TransactionError(text)) if text == "Not enough balance"));
    assert!(ledger.pending_transactions.is_empty());
}

#[test]
fn submitted_transfer_without_parties_or_amount_is_a_transaction_error() {
    let mut ledger = Blockchain::new_with_difficulty(1);
    let nameless = add_transaction(&mut ledger, request("", "bob", 50));
    assert!(matches!(&nameless, Err(ApiError::TransactionError(text))
        if text == "Transaction must include sender and receiver"));
    let empty = add_transaction(&mut ledger, request("alice", "bob", 0));
    assert!(matches!(&empty, Err(ApiError::TransactionError(text))
        if text == "Transaction amount must be greater than 0"));
    assert!(ledger.pending_transactions.is_empty());
}

#[test]
fn block_lookup_by_index() {
    let mut ledger = Blockchain::new_with_difficulty(1);
    mine_block(&mut ledger);
    let first = get_block(&ledger, 0).expect("the genesis block is there");
    assert_eq!(first.index, 0);
    let second = get_block(&ledger, 1).expect("the mined block is there");
    assert_eq!(second.index, 1);
    assert_eq!(second.hash, ledger.chain[1].hash);
}

#[test]
fn block_lookup_past_the_end_is_not_found() {
    let ledger = Blockchain::new_with_difficulty(1);
    let outcome = get_block(&ledger, 1);
    assert!(matches!(&outcome, Err(ApiError::NotFound(text)) if text == "Block at index 1 not found"));
    let far = get_block(&ledger, u64::MAX);
    assert!(matches!(&far, Err(ApiError::NotFound(text))
        if text == "Block at index 18446744073709551615 not found"));
    assert_eq!(far.err().map(|e| e.status_code()), Some(404));
}

#[test]
fn service_mines_for_its_own_identity() {
    let mut ledger = Blockchain::new_with_difficulty(1);
    let block = mine_block(&mut ledger);
    assert_eq!(block.index, 1);
    assert_eq!(block.transactions.len(), 1);
    assert_eq!(block.transactions[0].sender, "");
    assert_eq!(block.transactions[0].receiver, "miner-address");
    assert_eq!(block.transactions[0].amount, 100);
    assert_eq!(ledger.chain.len(), 2);
    assert_eq!(ledger.get_balance("miner-address"), 100);
}

#[test]
fn balance_reply() {
    let mut ledger = Blockchain::new_with_difficulty(1);
    mine_block(&mut ledger);
    let reply = get_balance(&ledger, "miner-address");
    assert!(reply.success);
    assert_eq!(reply.data, Some(100));
    assert_eq!(reply.error, None);
    assert_eq!(get_balance(&ledger, "nobody").data, Some(0));
}

#[test]
fn validity_reply() {
    let mut ledger = Blockchain::new_with_difficulty(1);
    mine_block(&mut ledger);
    let reply = validate_chain(&ledger);
    assert!(reply.success);
    assert_eq!(reply.data, Some(true));
    assert_eq!(reply.error, None);
    ledger.chain[1].nonce += 1;
    assert_eq!(validate_chain(&ledger).data, Some(false));
}

#[test]
fn store_remembers_its_path() {
    let store = FileStore::new(String::from("blockchain.json"));
    assert_eq!(store.path(), "blockchain.json");
}

#[test]
fn missing_snapshot_gives_a_fresh_ledger() {
    let ledger = FileStore::loaded_or_fresh(None);
    assert_eq!(ledger.chain.len(), 1);
    assert_eq!(ledger.chain[0].index, 0);
    assert_eq!(ledger.difficulty, 2);
    assert!(ledger.pending_transactions.is_empty());
    assert_eq!(ledger.mining_reward, 100);
    assert!(ledger.is_chain_valid());
}

#[test]
fn loaded_snapshot_is_kept_as_it_is() {
    let mut saved = Blockchain::new_with_difficulty(1);
    saved.mine_pending_transactions(String::from("miner"));
    saved.mining_reward = 9;
    let hash = saved.chain[1].hash.clone();
    let ledger = FileStore::loaded_or_fresh(Some(saved));
    assert_eq!(ledger.chain.len(), 2);
    assert_eq!(ledger.chain[1].hash, hash);
    assert_eq!(ledger.difficulty, 1);
    assert_eq!(ledger.mining_reward, 9);
}
