//! Balances, derived by replaying records: a confirmed record debits its
//! sender and credits its receiver, a pending record only debits its sender.
//! Both operations saturate at the ends of the `u64` range.

use vstd::prelude::*;

use super::block::BlockView;
use super::transaction::TransactionView;

verus! {

/// `balance` less `amount`, or nothing where `amount` is the larger.
pub open spec fn debit(balance: nat, amount: nat) -> nat {
    if amount > balance {
        0
    } else {
        (balance - amount) as nat
    }
}

/// `balance` plus `amount`, or `u64::MAX` where the sum is larger.
pub open spec fn credit(balance: nat, amount: nat) -> nat {
    if balance + amount > u64::MAX {
        u64::MAX as nat
    } else {
        balance + amount
    }
}

/// The balance of `address` after a confirmed record: debited if `address`
/// sent it, then credited if `address` received it.
pub open spec fn settle(balance: nat, record: TransactionView, address: Seq<char>) -> nat {
    let paid: nat = if record.sender == address {
        debit(balance, record.amount as nat)
    } else {
        balance
    };
    if record.receiver == address {
        credit(paid, record.amount as nat)
    } else {
        paid
    }
}

/// The balance of `address` after the confirmed `records`, in order.
pub open spec fn settle_all(balance: nat, records: Seq<TransactionView>, address: Seq<char>) -> nat
    decreases records.len(),
{
    if records.len() == 0 {
        balance
    } else {
        settle(settle_all(balance, records.drop_last(), address), records.last(), address)
    }
}

/// The balance of `address` after a pending record: debited if `address`
/// sent it. What `address` is to receive does not count yet.
pub open spec fn reserve(balance: nat, record: TransactionView, address: Seq<char>) -> nat {
    if record.sender == address {
        debit(balance, record.amount as nat)
    } else {
        balance
    }
}

/// The balance of `address` after the pending `records`, in order.
pub open spec fn reserve_all(balance: nat, records: Seq<TransactionView>, address: Seq<char>) -> nat
    decreases records.len(),
{
    if records.len() == 0 {
        balance
    } else {
        reserve(reserve_all(balance, records.drop_last(), address), records.last(), address)
    }
}

/// The records of all blocks, in chain order.
pub open spec fn history(chain: Seq<BlockView>) -> Seq<TransactionView>
    decreases chain.len(),
{
    if chain.len() == 0 {
        Seq::empty()
    } else {
        history(chain.drop_last()) + chain.last().transactions
    }
}

/// Settling a list of records is settling its front part, then the rest.
pub proof fn lemma_settle_all_concat(
    balance: nat,
    front: Seq<TransactionView>,
    rest: Seq<TransactionView>,
    address: Seq<char>,
)
    ensures
        settle_all(balance, front + rest, address) == settle_all(
            settle_all(balance, front, address),
            rest,
            address,
        ),
    decreases rest.len(),
{
    if rest.len() == 0 {
        assert(front + rest =~= front);
    } else {
        assert((front + rest).drop_last() =~= front + rest.drop_last());
        assert((front + rest).last() == rest.last());
        lemma_settle_all_concat(balance, front, rest.drop_last(), address);
    }
}

/// Any balance derived from a `u64` stays within `u64`.
pub proof fn lemma_settle_all_bounded(
    balance: nat,
    records: Seq<TransactionView>,
    address: Seq<char>,
)
    requires
        balance <= u64::MAX,
    ensures
        settle_all(balance, records, address) <= u64::MAX,
        reserve_all(balance, records, address) <= balance,
    decreases records.len(),
{
    if records.len() > 0 {
        lemma_settle_all_bounded(balance, records.drop_last(), address);
    }
}

/// `balance` less `amount`, saturating at zero.
pub fn saturating_debit(balance: u64, amount: u64) -> (left: u64)
    ensures
        left == debit(balance as nat, amount as nat),
{
    if amount > balance {
        0
    } else {
        balance - amount
    }
}

/// `balance` plus `amount`, saturating at `u64::MAX`.
pub fn saturating_credit(balance: u64, amount: u64) -> (sum: u64)
    ensures
        sum == credit(balance as nat, amount as nat),
{
    if amount > u64::MAX - balance {
        u64::MAX
    } else {
        balance + amount
    }
}

} // verus!
