use ledger_engine::blockchain::proof_of_work::{ProofOfWork, Strength, ATTEMPT_BUDGET};
use ledger_engine::blockchain::{Block, Timestamp, Transaction};

const GENESIS_HASH: &str = "37f57659f355b43b3daeeaab7b535744335dcdeca20c1e5b124f1ff64a5d2d44";

fn transfer() -> Transaction {
    Transaction::with_identity(
        String::from("id-1"),
        Timestamp { secs: 1_700_000_000, nanos: 0 },
        String::from("alice"),
        String::from("bob"),
        50,
    )
}

fn second_block() -> Block {
    Block::with_timestamp(
        1,
        Timestamp { secs: 1_700_000_001, nanos: 5 },
        vec![transfer()],
        String::from(GENESIS_HASH),
    )
}

#[test]
fn genesis_block_has_the_fixed_shape() {
    let block = Block::genesis();
    assert_eq!(block.index, 0);
    assert!(block.transactions.is_empty());
    assert_eq!(block.previous_hash, "0");
    assert_eq!(block.nonce, 0);
    assert_eq!(block.hash, block.calculate_hash());
}

#[test]
fn genesis_shaped_block_has_the_expected_hash() {
    let block = Block::with_timestamp(
        0,
        Timestamp { secs: 1_700_000_000, nanos: 0 },
        Vec::new(),
        String::from("0"),
    );
    assert_eq!(block.hash, GENESIS_HASH);
}

#[test]
fn new_block_stores_the_fingerprint_at_nonce_zero() {
    let block = Block::new(3, vec![transfer()], String::from("abc"));
    assert_eq!(block.index, 3);
    assert_eq!(block.transactions.len(), 1);
    assert_eq!(block.previous_hash, "abc");
    assert_eq!(block.nonce, 0);
    assert_eq!(block.hash, block.calculate_hash());
}

#[test]
fn block_hash_has_the_expected_value() {
    let block = second_block();
    assert_eq!(block.nonce, 0);
    assert_eq!(block.hash, "f191ce53a90288e4d78dffcf139d7696d19b897787cab13ef14bb10a4c12867e");
    assert_eq!(block.calculate_hash(), block.hash);
}

#[test]
fn block_hash_has_sixty_four_lower_case_hex_digits() {
    let digest = second_block().calculate_hash();
    assert_eq!(digest.chars().count(), 64);
    assert!(digest.chars().all(|c| matches!(c, '0'..='9' | 'a'..='f')));
    assert_eq!(Block::genesis().hash.chars().count(), 64);
}

#[test]
fn block_hash_is_the_same_when_asked_twice() {
    let block = second_block();
    assert_eq!(block.calculate_hash(), block.calculate_hash());
}

#[test]
fn block_hash_ignores_the_stored_hash() {
    let mut block = second_block();
    let before = block.calculate_hash();
    block.hash = String::from("something else");
    assert_eq!(block.calculate_hash(), before);
}

#[test]
fn block_hash_changes_with_a_record_amount() {
    let mut block = second_block();
    let before = block.calculate_hash();
    block.transactions[0].amount = 51;
    assert_ne!(block.calculate_hash(), before);
}

#[test]
fn mining_finds_the_least_nonce() {
    let mut block = second_block();
    block.mine_block(1);
    assert_eq!(block.nonce, 3);
    assert_eq!(block.hash, "000c71deafa1136dfd7aa621da5ece188f370d4b2019a19e472b0841e08128cb");
    assert_eq!(block.hash, block.calculate_hash());
    assert_eq!(block.index, 1);
    assert_eq!(block.transactions.len(), 1);
    assert_eq!(block.previous_hash, GENESIS_HASH);
}

#[test]
fn mining_twice_gives_the_same_solution() {
    let mut block = second_block();
    block.mine_block(2);
    let nonce: u64 = block.nonce;
    let hash = block.hash.clone();
    block.mine_block(2);
    assert_eq!(block.nonce, nonce);
    assert_eq!(block.hash, hash);
}

#[test]
fn mining_at_difficulty_zero_keeps_nonce_zero() {
    let mut block = second_block();
    block.mine_block(0);
    assert_eq!(block.nonce, 0);
    assert_eq!(block.hash, "f191ce53a90288e4d78dffcf139d7696d19b897787cab13ef14bb10a4c12867e");
}

#[test]
fn search_target_is_a_run_of_zeros() {
    let search = ProofOfWork::new(second_block(), 3);
    assert_eq!(search.target, "000");
    assert_eq!(search.block.index, 1);
    let empty = ProofOfWork::new(second_block(), 0);
    assert_eq!(empty.target, "");
}

#[test]
fn search_returns_hash_and_nonce_and_leaves_the_block_at_that_nonce() {
    let mut search = ProofOfWork::new(second_block(), 1);
    let (hash, nonce) = search.run();
    assert_eq!(nonce, 3);
    assert_eq!(hash, "000c71deafa1136dfd7aa621da5ece188f370d4b2019a19e472b0841e08128cb");
    assert_eq!(search.block.nonce, 3);
    assert_eq!(hash, search.block.calculate_hash());
    assert_eq!(hash.chars().count(), 64);
    assert!(hash.starts_with(&search.target));
    assert_eq!(search.target, "0");
    assert_eq!(search.block.hash, "f191ce53a90288e4d78dffcf139d7696d19b897787cab13ef14bb10a4c12867e");
}

#[test]
fn validate_wants_target_and_stored_hash() {
    let mut block = second_block();
    block.mine_block(1);
    let good = ProofOfWork::new(block.clone(), 1);
    assert!(good.validate());
    let too_hard = ProofOfWork::new(block.clone(), 4);
    assert!(!too_hard.validate());
    let mut stale = block.clone();
    stale.hash = String::from("0000");
    assert!(!ProofOfWork::new(stale, 1).validate());
    let unmined = ProofOfWork::new(second_block(), 1);
    assert!(!unmined.validate());
}

#[test]
fn attempt_budget_is_one_million() {
    assert_eq!(ATTEMPT_BUDGET, 1_000_000);
}

#[test]
fn target_gives_way_once_the_budget_is_spent() {
    let block = Block::with_timestamp(
        7,
        Timestamp { secs: 42, nanos: 0 },
        Vec::new(),
        String::from("prev"),
    );
    let mut search = ProofOfWork { block, target: String::from("zzz") };
    let solution = search.search();
    assert_eq!(solution.nonce, 1_000_011);
    assert_eq!(solution.hash, "063666d7766a3056ad39f37cfaec8b4ecc4db0efe39f55674461386b17ffd891");
    assert_eq!(solution.strength, Strength::Reduced);
    assert_eq!(search.target, "0");
    assert_eq!(search.block.nonce, 1_000_011);
}

#[test]
fn search_within_the_budget_meets_the_requested_target() {
    let mut search = ProofOfWork::new(second_block(), 2);
    let solution = search.search();
    assert_eq!(solution.nonce, 3);
    assert_eq!(solution.hash, "000c71deafa1136dfd7aa621da5ece188f370d4b2019a19e472b0841e08128cb");
    assert_eq!(solution.strength, Strength::Requested);
    assert_eq!(search.target, "00");
    assert_eq!(search.block.nonce, 3);
}

#[test]
fn block_clone_copies_every_field() {
    let mut block = second_block();
    block.mine_block(1);
    let copy = block.clone();
    assert_eq!(copy.index, block.index);
    assert_eq!(copy.timestamp, block.timestamp);
    assert_eq!(copy.transactions.len(), 1);
    assert_eq!(copy.transactions[0].id, block.transactions[0].id);
    assert_eq!(copy.previous_hash, block.previous_hash);
    assert_eq!(copy.hash, block.hash);
    assert_eq!(copy.nonce, block.nonce);
}
