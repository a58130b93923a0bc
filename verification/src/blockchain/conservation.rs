//! Conservation of value: in a ledger that only grew by admitting transfers
//! and mining blocks, transfers move value between addresses and rewards are
//! the only source of it, so the balances add up to what was minted.

use vstd::prelude::*;

use super::balance::{
    credit, debit, history, lemma_settle_all_bounded, lemma_settle_all_concat, reserve_all,
    settle_all,
};
use super::block::BlockView;
use super::chain::BlockchainView;
use super::transaction::TransactionView;

verus! {

/// What the records mint: the amounts of those without a sender.
pub open spec fn minted(records: Seq<TransactionView>) -> nat
    decreases records.len(),
{
    if records.len() == 0 {
        0
    } else {
        minted(records.drop_last()) + if records.last().is_reward() {
            records.last().amount as nat
        } else {
            0
        }
    }
}

/// Whether record `k` is a reward, or a transfer that its sender can
/// afford after the records before it.
pub open spec fn is_covered(records: Seq<TransactionView>, k: int) -> bool {
    records[k].is_reward() || settle_all(0, records.subrange(0, k), records[k].sender)
        >= records[k].amount
}

/// Whether every record is covered.
pub open spec fn is_solvent(records: Seq<TransactionView>) -> bool {
    forall|k: int| 0 <= k < records.len() ==> #[trigger] is_covered(records, k)
}

/// Whether every record names a receiver.
pub open spec fn all_received(records: Seq<TransactionView>) -> bool {
    forall|k: int| 0 <= k < records.len() ==> (#[trigger] records[k]).receiver.len() > 0
}

/// Whether every record names a sender.
pub open spec fn all_sent(records: Seq<TransactionView>) -> bool {
    forall|k: int| 0 <= k < records.len() ==> (#[trigger] records[k]).sender.len() > 0
}

/// Whether every record that names a sender moves something.
pub open spec fn transfers_move_value(records: Seq<TransactionView>) -> bool {
    forall|k: int|
        0 <= k < records.len() && !(#[trigger] records[k]).is_reward() ==> records[k].amount > 0
}

/// Whether `addresses` lists every receiver and every named sender of
/// `records`.
pub open spec fn lists_parties(addresses: Seq<Seq<char>>, records: Seq<TransactionView>) -> bool {
    forall|k: int|
        0 <= k < records.len() ==> {
            &&& addresses.contains((#[trigger] records[k]).receiver)
            &&& (!records[k].is_reward() ==> addresses.contains(records[k].sender))
        }
}

/// The sum of `worth` over `addresses`.
pub open spec fn sum_over(addresses: Seq<Seq<char>>, worth: spec_fn(Seq<char>) -> nat) -> nat
    decreases addresses.len(),
{
    if addresses.len() == 0 {
        0
    } else {
        sum_over(addresses.drop_last(), worth) + worth(addresses.last())
    }
}

/// What each address holds after the confirmed `records`.
pub open spec fn standing(records: Seq<TransactionView>) -> spec_fn(Seq<char>) -> nat {
    |address: Seq<char>| settle_all(0, records, address)
}

impl BlockchainView {
    /// The confirmed records followed by the pending ones.
    pub open spec fn all_records(self) -> Seq<TransactionView> {
        history(self.chain) + self.pending
    }

    /// The number of blocks mined on top of the first.
    pub open spec fn mined_blocks(self) -> nat {
        (self.chain.len() - 1) as nat
    }

    /// What holds of a ledger that started with a genesis block and only
    /// grew by admitting transfers and mining for a named miner at an
    /// unchanged reward: every record names a receiver, every transfer
    /// moves something, the pool holds no reward, every transfer was
    /// affordable when its turn came, and each mined block minted one
    /// reward.
    pub open spec fn is_sound(self) -> bool {
        &&& self.chain.len() > 0
        &&& all_received(self.all_records())
        &&& transfers_move_value(self.all_records())
        &&& all_sent(self.pending)
        &&& is_solvent(self.all_records())
        &&& minted(history(self.chain)) == self.mined_blocks() * self.mining_reward
    }

    /// The sum of the balances of `addresses`.
    pub open spec fn total_balance(self, addresses: Seq<Seq<char>>) -> nat {
        sum_over(addresses, |address: Seq<char>| self.balance(address))
    }
}

/// Sums of two valuations that agree on the addresses are equal.
pub proof fn lemma_sum_agrees(
    addresses: Seq<Seq<char>>,
    f: spec_fn(Seq<char>) -> nat,
    g: spec_fn(Seq<char>) -> nat,
)
    requires
        forall|i: int| 0 <= i < addresses.len() ==> f(#[trigger] addresses[i]) == g(addresses[i]),
    ensures
        sum_over(addresses, f) == sum_over(addresses, g),
    decreases addresses.len(),
{
    if addresses.len() > 0 {
        let front = addresses.drop_last();
        assert forall|i: int| 0 <= i < front.len() implies f(#[trigger] front[i]) == g(
            front[i],
        ) by {
            assert(front[i] == addresses[i]);
        }
        lemma_sum_agrees(front, f, g);
        assert(addresses.last() == addresses[addresses.len() - 1]);
    }
}

/// Where two valuations agree on every listed address but `x`, which is
/// listed once, their sums differ by what they differ at `x`.
pub proof fn lemma_sum_changes_at(
    addresses: Seq<Seq<char>>,
    f: spec_fn(Seq<char>) -> nat,
    g: spec_fn(Seq<char>) -> nat,
    x: Seq<char>,
)
    requires
        addresses.no_duplicates(),
        addresses.contains(x),
        forall|i: int|
            0 <= i < addresses.len() && addresses[i] != x ==> f(#[trigger] addresses[i]) == g(
                addresses[i],
            ),
    ensures
        sum_over(addresses, g) + f(x) == sum_over(addresses, f) + g(x),
    decreases addresses.len(),
{
    let front = addresses.drop_last();
    let end: int = addresses.len() - 1;
    assert(addresses.last() == addresses[end]);
    if addresses[end] == x {
        assert forall|i: int| 0 <= i < front.len() implies f(#[trigger] front[i]) == g(
            front[i],
        ) by {
            assert(front[i] == addresses[i]);
            assert(addresses[i] != addresses[end]);
        }
        lemma_sum_agrees(front, f, g);
    } else {
        let at: int = choose|i: int| 0 <= i < addresses.len() && addresses[i] == x;
        assert(front[at] == x);
        assert forall|i: int| 0 <= i < front.len() && front[i] != x implies f(
            #[trigger] front[i],
        ) == g(front[i]) by {
            assert(front[i] == addresses[i]);
        }
        assert forall|i: int, j: int|
            0 <= i < front.len() && 0 <= j < front.len() && i != j implies front[i]
            != front[j] by {
            assert(front[i] == addresses[i]);
            assert(front[j] == addresses[j]);
        }
        lemma_sum_changes_at(front, f, g, x);
    }
}

/// No listed address is worth more than the sum.
pub proof fn lemma_sum_bounds_member(
    addresses: Seq<Seq<char>>,
    f: spec_fn(Seq<char>) -> nat,
    x: Seq<char>,
)
    requires
        addresses.contains(x),
    ensures
        f(x) <= sum_over(addresses, f),
    decreases addresses.len(),
{
    let front = addresses.drop_last();
    let end: int = addresses.len() - 1;
    assert(addresses.last() == addresses[end]);
    if addresses[end] != x {
        let at: int = choose|i: int| 0 <= i < addresses.len() && addresses[i] == x;
        assert(front[at] == x);
        lemma_sum_bounds_member(front, f, x);
    }
}

/// An address that receives nothing holds nothing.
pub proof fn lemma_nothing_received(records: Seq<TransactionView>, address: Seq<char>)
    requires
        forall|k: int| 0 <= k < records.len() ==> (#[trigger] records[k]).receiver != address,
    ensures
        settle_all(0, records, address) == 0,
    decreases records.len(),
{
    if records.len() > 0 {
        let front = records.drop_last();
        assert forall|k: int| 0 <= k < front.len() implies (#[trigger] front[k]).receiver
            != address by {
            assert(front[k] == records[k]);
        }
        lemma_nothing_received(front, address);
        assert(records.last() == records[records.len() - 1]);
    }
}

/// What is minted by two lists is what is minted by them put together.
pub proof fn lemma_minted_concat(front: Seq<TransactionView>, rest: Seq<TransactionView>)
    ensures
        minted(front + rest) == minted(front) + minted(rest),
    decreases rest.len(),
{
    if rest.len() == 0 {
        assert(front + rest =~= front);
    } else {
        assert((front + rest).drop_last() =~= front + rest.drop_last());
        assert((front + rest).last() == rest.last());
        lemma_minted_concat(front, rest.drop_last());
    }
}

/// Transfers mint nothing.
pub proof fn lemma_transfers_mint_nothing(records: Seq<TransactionView>)
    requires
        all_sent(records),
    ensures
        minted(records) == 0,
    decreases records.len(),
{
    if records.len() > 0 {
        let front = records.drop_last();
        assert forall|k: int| 0 <= k < front.len() implies (#[trigger] front[k]).sender.len()
            > 0 by {
            assert(front[k] == records[k]);
        }
        lemma_transfers_mint_nothing(front);
        assert(records.last() == records[records.len() - 1]);
    }
}

/// What a sender may spend from the pool never exceeds what the sender
/// holds once the pool is confirmed: confirmation only adds the credits.
pub proof fn lemma_confirmation_only_adds(
    balance: nat,
    records: Seq<TransactionView>,
    address: Seq<char>,
)
    requires
        balance <= u64::MAX,
    ensures
        reserve_all(balance, records, address) <= settle_all(balance, records, address),
    decreases records.len(),
{
    if records.len() > 0 {
        lemma_confirmation_only_adds(balance, records.drop_last(), address);
        lemma_settle_all_bounded(balance, records.drop_last(), address);
    }
}

/// The records of a chain with one more block are those of the chain, then
/// those of the block.
pub proof fn lemma_history_push(chain: Seq<BlockView>, block: BlockView)
    ensures
        history(chain.push(block)) == history(chain) + block.transactions,
{
    assert(chain.push(block).drop_last() =~= chain);
    assert(chain.push(block).last() == block);
}

/// What is said of a list of records holds of the list without its last
/// record.
proof fn lemma_front_inherits(records: Seq<TransactionView>, addresses: Seq<Seq<char>>)
    requires
        records.len() > 0,
        is_solvent(records),
        all_received(records),
        lists_parties(addresses, records),
    ensures
        is_solvent(records.drop_last()),
        all_received(records.drop_last()),
        lists_parties(addresses, records.drop_last()),
{
    let front = records.drop_last();
    assert forall|k: int| 0 <= k < front.len() implies #[trigger] is_covered(front, k) by {
        assert(is_covered(records, k));
        assert(front[k] == records[k]);
        assert(front.subrange(0, k) =~= records.subrange(0, k));
    }
    assert forall|k: int| 0 <= k < front.len() implies (#[trigger] front[k]).receiver.len()
        > 0 by {
        assert(front[k] == records[k]);
    }
    assert forall|k: int| 0 <= k < front.len() implies {
        &&& addresses.contains((#[trigger] front[k]).receiver)
        &&& (!front[k].is_reward() ==> addresses.contains(front[k].sender))
    } by {
        assert(front[k] == records[k]);
    }
}

/// A list of records stays solvent when a covered record is put at its end.
proof fn lemma_solvent_push(records: Seq<TransactionView>, record: TransactionView)
    requires
        is_solvent(records),
        record.is_reward() || settle_all(0, records, record.sender) >= record.amount,
    ensures
        is_solvent(records.push(record)),
{
    let longer = records.push(record);
    assert forall|k: int| 0 <= k < longer.len() implies #[trigger] is_covered(longer, k) by {
        if k < records.len() {
            assert(is_covered(records, k));
            assert(longer[k] == records[k]);
            assert(longer.subrange(0, k) =~= records.subrange(0, k));
        } else {
            assert(longer.subrange(0, k) =~= records);
        }
    }
}

/// After solvent records that all name a receiver, and as long as what
/// they mint fits in a `u64`, what the listed addresses hold adds up to
/// what was minted.
pub proof fn lemma_standings_sum_to_minted(
    records: Seq<TransactionView>,
    addresses: Seq<Seq<char>>,
)
    requires
        is_solvent(records),
        all_received(records),
        addresses.no_duplicates(),
        lists_parties(addresses, records),
        minted(records) <= u64::MAX,
    ensures
        sum_over(addresses, standing(records)) == minted(records),
    decreases records.len(),
{
    if records.len() == 0 {
        lemma_sum_agrees(addresses, standing(records), |a: Seq<char>| 0nat);
        lemma_sum_of_nothing(addresses);
    } else {
        let front = records.drop_last();
        let end: int = records.len() - 1;
        let record = records[end];
        let amount: nat = record.amount as nat;
        assert(records.last() == record);
        lemma_front_inherits(records, addresses);
        lemma_standings_sum_to_minted(front, addresses);
        let held = standing(front);
        let paid = |a: Seq<char>|
            if record.sender == a {
                debit(held(a), amount)
            } else {
                held(a)
            };
        let settled = standing(records);
        assert forall|a: Seq<char>| #[trigger] settled(a) == if record.receiver == a {
            credit(paid(a), amount)
        } else {
            paid(a)
        } by {}
        if record.is_reward() {
            assert forall|k: int| 0 <= k < front.len() implies (#[trigger] front[k]).receiver
                != record.sender by {}
            lemma_nothing_received(front, record.sender);
            lemma_sum_agrees(addresses, held, paid);
        } else {
            assert(is_covered(records, end));
            assert(records.subrange(0, end) =~= front);
            lemma_sum_changes_at(addresses, held, paid, record.sender);
        }
        lemma_sum_bounds_member(addresses, paid, record.receiver);
        lemma_sum_changes_at(addresses, paid, settled, record.receiver);
    }
}

/// A valuation that is zero everywhere sums to zero.
proof fn lemma_sum_of_nothing(addresses: Seq<Seq<char>>)
    ensures
        sum_over(addresses, |a: Seq<char>| 0nat) == 0,
    decreases addresses.len(),
{
    if addresses.len() > 0 {
        lemma_sum_of_nothing(addresses.drop_last());
    }
}

/// A fresh ledger is sound: a chain of one block without records, and an
/// empty pool.
pub proof fn lemma_fresh_is_sound(ledger: BlockchainView)
    requires
        ledger.chain.len() == 1,
        ledger.chain[0].transactions.len() == 0,
        ledger.pending.len() == 0,
    ensures
        ledger.is_sound(),
{
    let nothing = Seq::<TransactionView>::empty();
    assert(ledger.chain.drop_last() =~= Seq::<BlockView>::empty());
    assert(history(ledger.chain.drop_last()) =~= nothing);
    assert(ledger.chain.last() == ledger.chain[0]);
    assert(ledger.chain[0].transactions =~= nothing);
    assert(history(ledger.chain) =~= nothing);
    assert(ledger.all_records() =~= nothing);
    assert(minted(nothing) == 0);
    assert(ledger.mined_blocks() == 0);
    assert(ledger.mined_blocks() * ledger.mining_reward == 0);
}

/// Admitting a transfer keeps a ledger sound.
pub proof fn lemma_admission_keeps_soundness(ledger: BlockchainView, record: TransactionView)
    requires
        ledger.is_sound(),
        ledger.admission(record) is Ok,
    ensures
        ledger.with_pending(record).is_sound(),
{
    let after = ledger.with_pending(record);
    let confirmed = history(ledger.chain);
    let held: nat = settle_all(0, confirmed, record.sender);
    assert(after.all_records() =~= ledger.all_records().push(record));
    lemma_settle_all_bounded(0, confirmed, record.sender);
    lemma_confirmation_only_adds(held, ledger.pending, record.sender);
    lemma_settle_all_concat(0, confirmed, ledger.pending, record.sender);
    lemma_solvent_push(ledger.all_records(), record);
    assert forall|k: int| 0 <= k < after.all_records().len() implies {
        &&& (#[trigger] after.all_records()[k]).receiver.len() > 0
        &&& (!after.all_records()[k].is_reward() ==> after.all_records()[k].amount > 0)
    } by {
        if k < ledger.all_records().len() {
            assert(after.all_records()[k] == ledger.all_records()[k]);
        }
    }
    assert forall|k: int| 0 <= k < after.pending.len() implies (
    #[trigger] after.pending[k]).sender.len() > 0 by {
        if k < ledger.pending.len() {
            assert(after.pending[k] == ledger.pending[k]);
        }
    }
}

/// Sealing the pool keeps a ledger sound, as long as the last record of the
/// new block is a reward of the ledger's amount for a named miner and the
/// records before it are the pool.
pub proof fn lemma_sealing_keeps_soundness(ledger: BlockchainView, block: BlockView)
    requires
        ledger.is_sound(),
        block.transactions.len() > 0,
        block.transactions.drop_last() == ledger.pending,
        block.transactions.last().is_reward(),
        block.transactions.last().receiver.len() > 0,
        block.transactions.last().amount == ledger.mining_reward,
    ensures
        ledger.with_block(block).is_sound(),
{
    let after = ledger.with_block(block);
    let reward = block.transactions.last();
    let confirmed = history(ledger.chain);
    lemma_history_push(ledger.chain, block);
    assert(block.transactions =~= ledger.pending.push(reward));
    assert(after.all_records() =~= ledger.all_records().push(reward));
    assert(history(after.chain) =~= confirmed + ledger.pending.push(reward));
    lemma_solvent_push(ledger.all_records(), reward);
    assert forall|k: int| 0 <= k < after.all_records().len() implies {
        &&& (#[trigger] after.all_records()[k]).receiver.len() > 0
        &&& (!after.all_records()[k].is_reward() ==> after.all_records()[k].amount > 0)
    } by {
        if k < ledger.all_records().len() {
            assert(after.all_records()[k] == ledger.all_records()[k]);
        }
    }
    lemma_minted_concat(confirmed, ledger.pending.push(reward));
    assert(ledger.pending.push(reward).drop_last() =~= ledger.pending);
    lemma_transfers_mint_nothing(ledger.pending);
    assert(minted(history(after.chain)) == minted(confirmed) + ledger.mining_reward);
    assert(after.mined_blocks() == ledger.mined_blocks() + 1);
    assert((ledger.mined_blocks() + 1) * ledger.mining_reward == ledger.mined_blocks()
        * ledger.mining_reward + ledger.mining_reward) by (nonlinear_arith);
}

/// Conservation of value. In a sound ledger with an empty pool, as it is
/// right after mining, and as long as the rewards of all mined blocks
/// together fit in a `u64`, the balances of any duplicate-free list of
/// addresses that names every party of the chain add up to the number of
/// mined blocks times the reward.
pub proof fn lemma_balances_sum_to_rewards(ledger: BlockchainView, addresses: Seq<Seq<char>>)
    requires
        ledger.is_sound(),
        ledger.pending.len() == 0,
        addresses.no_duplicates(),
        lists_parties(addresses, history(ledger.chain)),
        ledger.mined_blocks() * ledger.mining_reward <= u64::MAX,
    ensures
        ledger.total_balance(addresses) == ledger.mined_blocks() * ledger.mining_reward,
{
    let confirmed = history(ledger.chain);
    assert(ledger.all_records() =~= confirmed);
    lemma_standings_sum_to_minted(confirmed, addresses);
    lemma_sum_agrees(addresses, standing(confirmed), |address: Seq<char>| ledger.balance(address));
}

} // verus!
