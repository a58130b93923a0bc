//! The ledger: the chain of mined blocks and the pool of admitted records
//! that wait for the next block.

use vstd::prelude::*;
use vstd::string::*;

use super::balance::{
    history, lemma_settle_all_concat, reserve_all, saturating_credit, saturating_debit, settle_all,
};
use super::block::{Block, BlockView};
use super::digest::FINGERPRINT_LENGTH;
use super::conservation::{
    lemma_admission_keeps_soundness, lemma_fresh_is_sound, lemma_sealing_keeps_soundness,
};
use super::proof_of_work::{lemma_solved_within_budget, ATTEMPT_BUDGET};
use super::text::{starts_with, zeros, zeros_string};
use super::timestamp::{current_time, Timestamp};
use super::transaction::{views, Transaction, TransactionView};

verus! {

/// The difficulty of a ledger made by [`Blockchain::new`].
pub const DEFAULT_DIFFICULTY: usize = 2;

/// The reward of a freshly made ledger.
pub const DEFAULT_MINING_REWARD: u64 = 100;

/// The ledger: `chain` starts with the genesis block; `difficulty` is the
/// number of leading `'0'` characters asked of a block hash;
/// `pending_transactions` holds the admitted records in order of admission;
/// `mining_reward` is minted for the miner of each block.
#[derive(Debug)]
pub struct Blockchain {
    pub chain: Vec<Block>,
    pub difficulty: usize,
    pub pending_transactions: Vec<Transaction>,
    pub mining_reward: u64,
}

/// The mathematical content of a [`Blockchain`].
pub struct BlockchainView {
    pub chain: Seq<BlockView>,
    pub difficulty: nat,
    pub pending: Seq<TransactionView>,
    pub mining_reward: u64,
}

/// The contents of a list of blocks, one by one.
pub open spec fn block_views(blocks: Seq<Block>) -> Seq<BlockView> {
    blocks.map_values(|b: Block| b@)
}

/// The contents of a list of borrowed records, one by one.
pub open spec fn borrowed_views(records: Seq<&Transaction>) -> Seq<TransactionView> {
    records.map_values(|t: &Transaction| t@)
}

impl View for Blockchain {
    type V = BlockchainView;

    open spec fn view(&self) -> BlockchainView {
        BlockchainView {
            chain: block_views(self.chain@),
            difficulty: self.difficulty as nat,
            pending: views(self.pending_transactions@),
            mining_reward: self.mining_reward,
        }
    }
}

/// Why a record is not admitted to the pool.
#[derive(Clone, Copy, Debug, PartialEq, Eq, Structural)]
pub enum ValidationError {
    /// The sender or the receiver is empty.
    MissingParty,
    /// The amount is zero.
    NonPositiveAmount,
    /// The sender's balance, pending debits included, is below the amount.
    InsufficientBalance { available: u64, requested: u64 },
}

impl BlockchainView {
    /// The ledger of one genesis block made at `timestamp`, with an empty
    /// pool and the default reward.
    pub open spec fn fresh(difficulty: nat, timestamp: Timestamp) -> BlockchainView {
        BlockchainView {
            chain: seq![BlockView::genesis_at(timestamp)],
            difficulty,
            pending: Seq::empty(),
            mining_reward: DEFAULT_MINING_REWARD,
        }
    }

    /// The balance of `address`: the confirmed records of the whole chain
    /// settled from zero, then the pending debits of `address` taken off.
    pub open spec fn balance(self, address: Seq<char>) -> nat {
        reserve_all(settle_all(0, history(self.chain), address), self.pending, address)
    }

    /// Whether block `i` stores the fingerprint of its own fields and the
    /// hash of the block before it.
    pub open spec fn link_holds(self, i: int) -> bool {
        &&& self.chain[i].is_intact()
        &&& self.chain[i].previous_hash == self.chain[i - 1].hash
    }

    /// Whether block `i` is linked and its hash begins with as many `'0'`
    /// as the ledger's difficulty asks for now.
    pub open spec fn block_holds(self, i: int) -> bool {
        &&& self.link_holds(i)
        &&& zeros(self.difficulty).is_prefix_of(self.chain[i].hash)
    }

    /// Whether every block after the first holds.
    pub open spec fn is_valid(self) -> bool {
        forall|i: int| 0 < i < self.chain.len() ==> #[trigger] self.block_holds(i)
    }

    /// Whether the chain starts with a genesis block, every later block is
    /// linked to the one before it, and every block carries its place in the
    /// chain as its index.
    pub open spec fn is_linked(self) -> bool {
        &&& self.chain.len() > 0
        &&& self.chain[0].is_genesis()
        &&& forall|i: int| 0 < i < self.chain.len() ==> #[trigger] self.link_holds(i)
        &&& forall|i: int| 0 <= i < self.chain.len() ==> (#[trigger] self.chain[i]).index == i
    }

    /// Whether every pending record names both parties and moves something.
    pub open spec fn pool_is_admissible(self) -> bool {
        forall|i: int|
            0 <= i < self.pending.len() ==> {
                &&& (#[trigger] self.pending[i]).sender.len() > 0
                &&& self.pending[i].receiver.len() > 0
                &&& self.pending[i].amount > 0
            }
    }

    /// The verdict on a transfer offered to the pool. The checks are made in
    /// this order: parties, amount, balance.
    pub open spec fn verdict(self, sender: Seq<char>, receiver: Seq<char>, amount: u64) -> Result<
        (),
        ValidationError,
    > {
        if sender.len() == 0 || receiver.len() == 0 {
            Err(ValidationError::MissingParty)
        } else if amount == 0 {
            Err(ValidationError::NonPositiveAmount)
        } else if self.balance(sender) < amount {
            Err(
                ValidationError::InsufficientBalance {
                    available: self.balance(sender) as u64,
                    requested: amount,
                },
            )
        } else {
            Ok(())
        }
    }

    /// The verdict on `record`, which depends on its parties and amount
    /// only.
    pub open spec fn admission(self, record: TransactionView) -> Result<(), ValidationError> {
        self.verdict(record.sender, record.receiver, record.amount)
    }

    /// The ledger with `record` at the tail of the pool.
    pub open spec fn with_pending(self, record: TransactionView) -> BlockchainView {
        BlockchainView { pending: self.pending.push(record), ..self }
    }

    /// The block that is handed to the search when the pool is sealed with
    /// `reward` as its last record.
    pub open spec fn candidate(self, reward: TransactionView, timestamp: Timestamp) -> BlockView {
        BlockView::unmined(
            self.chain.len() as u64,
            timestamp,
            self.pending.push(reward),
            self.chain.last().hash,
        )
    }

    /// The ledger with `block` at the end of the chain and an empty pool.
    pub open spec fn with_block(self, block: BlockView) -> BlockchainView {
        BlockchainView { chain: self.chain.push(block), pending: Seq::empty(), ..self }
    }
}

impl ValidationError {
    /// The reason in words.
    pub open spec fn wording(self) -> Seq<char> {
        match self {
            ValidationError::MissingParty => "Transaction must include sender and receiver"@,
            ValidationError::NonPositiveAmount => "Transaction amount must be greater than 0"@,
            ValidationError::InsufficientBalance { .. } => "Not enough balance"@,
        }
    }

    /// The reason in words.
    pub fn message(&self) -> (text: String)
        ensures
            text@ == self.wording(),
    {
        match self {
            ValidationError::MissingParty => String::from_str(
                "Transaction must include sender and receiver",
            ),
            ValidationError::NonPositiveAmount => String::from_str(
                "Transaction amount must be greater than 0",
            ),
            ValidationError::InsufficientBalance { .. } => String::from_str("Not enough balance"),
        }
    }
}

impl Blockchain {
    /// A ledger of one genesis block at the default difficulty.
    pub fn new() -> (ledger: Self)
        ensures
            ledger@ == BlockchainView::fresh(DEFAULT_DIFFICULTY as nat, ledger@.chain[0].timestamp),
            ledger@.chain[0].hash.len() == FINGERPRINT_LENGTH,
            ledger@.is_linked(),
            ledger@.is_valid(),
            ledger@.is_sound(),
    {
        Self::new_with_difficulty(DEFAULT_DIFFICULTY)
    }

    /// A ledger of one genesis block. It is valid at any difficulty.
    pub fn new_with_difficulty(difficulty: usize) -> (ledger: Self)
        ensures
            ledger@ == BlockchainView::fresh(difficulty as nat, ledger@.chain[0].timestamp),
            ledger@.chain[0].hash.len() == FINGERPRINT_LENGTH,
            ledger@.is_linked(),
            ledger@.is_valid(),
            ledger@.is_sound(),
    {
        let mut ledger = Blockchain {
            chain: Vec::new(),
            difficulty,
            pending_transactions: Vec::new(),
            mining_reward: DEFAULT_MINING_REWARD,
        };
        ledger.chain.push(Block::genesis());
        proof {
            assert(ledger@.chain =~= seq![BlockView::genesis_at(ledger@.chain[0].timestamp)]);
            assert(ledger@.pending =~= Seq::<TransactionView>::empty());
            lemma_fresh_is_sound(ledger@);
        }
        ledger
    }

    /// Admits `transaction` to the tail of the pool, or rejects it and
    /// leaves the ledger as it was.
    pub fn add_transaction(&mut self, transaction: Transaction) -> (outcome: Result<
        (),
        ValidationError,
    >)
        ensures
            outcome == old(self)@.admission(transaction@),
            outcome is Ok ==> final(self)@ == old(self)@.with_pending(transaction@),
            outcome is Err ==> *final(self) == *old(self),
            old(self)@.pool_is_admissible() ==> final(self)@.pool_is_admissible(),
            old(self)@.is_linked() ==> final(self)@.is_linked(),
            old(self)@.is_sound() ==> final(self)@.is_sound(),
    {
        if transaction.sender.as_str().is_empty() || transaction.receiver.as_str().is_empty() {
            return Err(ValidationError::MissingParty);
        }
        if transaction.amount == 0 {
            return Err(ValidationError::NonPositiveAmount);
        }
        let available: u64 = self.get_balance(transaction.sender.as_str());
        if available < transaction.amount {
            return Err(
                ValidationError::InsufficientBalance { available, requested: transaction.amount },
            );
        }
        self.pending_transactions.push(transaction);
        proof {
            assert(self@.pending =~= old(self)@.pending.push(transaction@));
            if old(self)@.is_sound() {
                lemma_admission_keeps_soundness(old(self)@, transaction@);
            }
            if old(self)@.is_linked() {
                assert forall|i: int| 0 < i < self@.chain.len() implies #[trigger] self@.link_holds(
                    i,
                ) by {
                    assert(old(self)@.link_holds(i));
                }
            }
        }
        Ok(())
    }

    /// Mints the reward for `miner_address`, seals the whole pool and the
    /// reward into a block stamped with the current time, and appends it.
    pub fn mine_pending_transactions(&mut self, miner_address: String) -> (block: Block)
        requires
            old(self)@.chain.len() > 0,
        ensures
            block@.transactions.len() == old(self)@.pending.len() + 1,
            block@.transactions.last().sender.len() == 0,
            block@.transactions.last().receiver == miner_address@,
            block@.transactions.last().amount == old(self)@.mining_reward,
            block@.transactions.last().signature.len() == 0,
            block@.is_mined_from(
                old(self)@.candidate(block@.transactions.last(), block@.timestamp),
                old(self)@.difficulty,
            ),
            block@.hash.len() == FINGERPRINT_LENGTH,
            final(self)@ == old(self)@.with_block(block@),
            old(self)@.is_linked() ==> final(self)@.is_linked(),
            old(self)@.is_valid() ==> (final(self)@.is_valid() <==> zeros(
                old(self)@.difficulty,
            ).is_prefix_of(block@.hash)),
            block@.nonce < ATTEMPT_BUDGET ==> zeros(old(self)@.difficulty).is_prefix_of(block@.hash),
            old(self)@.is_sound() && miner_address@.len() > 0 ==> final(self)@.is_sound(),
    {
        let reward = Transaction::new(String::new(), miner_address, self.mining_reward);
        self.seal_pending(reward, current_time())
    }

    /// Seals the whole pool, followed by `reward`, into a block with the
    /// given timestamp, mines it at the ledger's difficulty, appends it to
    /// the chain and empties the pool. Returns the new block.
    pub fn seal_pending(&mut self, reward: Transaction, timestamp: Timestamp) -> (block: Block)
        requires
            old(self)@.chain.len() > 0,
        ensures
            block@.is_mined_from(old(self)@.candidate(reward@, timestamp), old(self)@.difficulty),
            block@.hash.len() == FINGERPRINT_LENGTH,
            final(self)@ == old(self)@.with_block(block@),
            old(self)@.is_linked() ==> final(self)@.is_linked(),
            old(self)@.is_valid() ==> (final(self)@.is_valid() <==> zeros(
                old(self)@.difficulty,
            ).is_prefix_of(block@.hash)),
            block@.nonce < ATTEMPT_BUDGET ==> zeros(old(self)@.difficulty).is_prefix_of(block@.hash),
            old(self)@.is_sound() && reward@.is_reward() && reward@.receiver.len() > 0
                && reward@.amount == old(self)@.mining_reward ==> final(self)@.is_sound(),
    {
        let ghost before = self@;
        self.pending_transactions.push(reward);
        assert(self@.pending =~= before.pending.push(reward@));
        let mut block = Block::with_timestamp(
            self.chain.len() as u64,
            timestamp,
            self.pending_transactions.clone(),
            self.chain[self.chain.len() - 1].hash.clone(),
        );
        assert(block@.transactions =~= before.pending.push(reward@));
        assert(block@ == before.candidate(reward@, timestamp));
        block.mine_block(self.difficulty);
        self.chain.push(block.clone());
        self.pending_transactions.clear();
        proof {
            assert(self@.chain =~= before.chain.push(block@));
            assert(self@.pending =~= Seq::<TransactionView>::empty());
            if before.is_sound() && reward@.is_reward() && reward@.receiver.len() > 0
                && reward@.amount == before.mining_reward {
                assert(block@.transactions.drop_last() =~= before.pending);
                lemma_sealing_keeps_soundness(before, block@);
            }
            let end = before.chain.len() as int;
            assert(self@.link_holds(end));
            if before.is_linked() {
                assert forall|i: int| 0 < i < self@.chain.len() implies #[trigger] self@.link_holds(
                    i,
                ) by {
                    if i < end {
                        assert(before.link_holds(i));
                    }
                }
            }
            if before.is_valid() {
                if zeros(before.difficulty).is_prefix_of(block@.hash) {
                    assert forall|i: int| 0 < i < self@.chain.len() implies #[trigger] self@.block_holds(
                        i,
                    ) by {
                        if i < end {
                            assert(before.block_holds(i));
                        }
                    }
                } else {
                    assert(!self@.block_holds(end));
                }
            }
            if block@.nonce < ATTEMPT_BUDGET {
                lemma_solved_within_budget(
                    before.candidate(reward@, timestamp),
                    zeros(before.difficulty),
                    block@.nonce as nat,
                );
            }
        }
        block
    }

    /// The balance of `address`, derived from the chain and the pool.
    pub fn get_balance(&self, address: &str) -> (balance: u64)
        ensures
            balance == self@.balance(address@),
    {
        let owner = address.to_owned();
        let mut balance: u64 = 0;
        let mut i: usize = 0;
        while i < self.chain.len()
            invariant
                i <= self.chain@.len(),
                owner@ == address@,
                balance == settle_all(0, history(self@.chain.subrange(0, i as int)), address@),
            decreases self.chain@.len() - i,
        {
            let block = &self.chain[i];
            let ghost carried = balance as nat;
            let mut j: usize = 0;
            while j < block.transactions.len()
                invariant
                    j <= block.transactions@.len(),
                    owner@ == address@,
                    balance == settle_all(
                        carried,
                        block@.transactions.subrange(0, j as int),
                        address@,
                    ),
                decreases block.transactions@.len() - j,
            {
                let record = &block.transactions[j];
                if record.sender == owner {
                    balance = saturating_debit(balance, record.amount);
                }
                if record.receiver == owner {
                    balance = saturating_credit(balance, record.amount);
                }
                proof {
                    let upto = block@.transactions.subrange(0, j + 1);
                    assert(upto.drop_last() =~= block@.transactions.subrange(0, j as int));
                    assert(upto.last() == record@);
                }
                j += 1;
            }
            proof {
                assert(block@.transactions.subrange(0, j as int) =~= block@.transactions);
                let upto = self@.chain.subrange(0, i + 1);
                assert(upto.drop_last() =~= self@.chain.subrange(0, i as int));
                assert(upto.last() == block@);
                lemma_settle_all_concat(
                    0,
                    history(self@.chain.subrange(0, i as int)),
                    block@.transactions,
                    address@,
                );
            }
            i += 1;
        }
        assert(self@.chain.subrange(0, i as int) =~= self@.chain);
        let ghost confirmed = balance as nat;
        let mut k: usize = 0;
        while k < self.pending_transactions.len()
            invariant
                k <= self.pending_transactions@.len(),
                owner@ == address@,
                balance == reserve_all(confirmed, self@.pending.subrange(0, k as int), address@),
            decreases self.pending_transactions@.len() - k,
        {
            let record = &self.pending_transactions[k];
            if record.sender == owner {
                balance = saturating_debit(balance, record.amount);
            }
            proof {
                let upto = self@.pending.subrange(0, k + 1);
                assert(upto.drop_last() =~= self@.pending.subrange(0, k as int));
                assert(upto.last() == record@);
            }
            k += 1;
        }
        assert(self@.pending.subrange(0, k as int) =~= self@.pending);
        balance
    }

    /// Whether every block after the first stores its own fingerprint and
    /// its predecessor's hash, and meets the ledger's current difficulty.
    pub fn is_chain_valid(&self) -> (valid: bool)
        ensures
            valid == self@.is_valid(),
    {
        let target = zeros_string(self.difficulty);
        let mut i: usize = 1;
        while i < self.chain.len()
            invariant
                1 <= i,
                target@ == zeros(self.difficulty as nat),
                forall|k: int| 0 < k < i && k < self.chain@.len() ==> #[trigger] self@.block_holds(k),
            decreases self.chain@.len() - i,
        {
            let current = &self.chain[i];
            let previous = &self.chain[i - 1];
            let intact = current.hash == current.calculate_hash();
            let linked = current.previous_hash == previous.hash;
            let heavy = starts_with(current.hash.as_str(), target.as_str());
            if !intact || !linked || !heavy {
                assert(!self@.block_holds(i as int));
                return false;
            }
            assert(self@.block_holds(i as int));
            i += 1;
        }
        true
    }

    /// Every confirmed record, in chain order.
    pub fn get_all_transactions(&self) -> (records: Vec<&Transaction>)
        ensures
            borrowed_views(records@) == history(self@.chain),
    {
        let mut records: Vec<&Transaction> = Vec::new();
        let mut i: usize = 0;
        while i < self.chain.len()
            invariant
                i <= self.chain@.len(),
                borrowed_views(records@) == history(self@.chain.subrange(0, i as int)),
            decreases self.chain@.len() - i,
        {
            let block = &self.chain[i];
            let ghost carried = borrowed_views(records@);
            let mut j: usize = 0;
            while j < block.transactions.len()
                invariant
                    j <= block.transactions@.len(),
                    borrowed_views(records@) == carried + block@.transactions.subrange(
                        0,
                        j as int,
                    ),
                decreases block.transactions@.len() - j,
            {
                let ghost gathered = records@;
                let record = &block.transactions[j];
                records.push(record);
                proof {
                    assert(borrowed_views(gathered).len() == gathered.len());
                    assert(block@.transactions[j as int] == record@);
                    assert(borrowed_views(records@) =~= borrowed_views(gathered).push(record@));
                }
                j += 1;
            }
            proof {
                assert(block@.transactions.subrange(0, j as int) =~= block@.transactions);
                let upto = self@.chain.subrange(0, i + 1);
                assert(upto.drop_last() =~= self@.chain.subrange(0, i as int));
                assert(upto.last() == block@);
            }
            i += 1;
        }
        assert(self@.chain.subrange(0, i as int) =~= self@.chain);
        records
    }
}

} // verus!
