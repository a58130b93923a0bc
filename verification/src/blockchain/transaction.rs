//! The value-transfer record and its fingerprint.

use uuid::Uuid;
use vstd::prelude::*;
use vstd::string::*;

use super::digest::{fingerprint, fingerprint_of, FINGERPRINT_LENGTH};
use super::text::{decimal, decimal_string, signed_decimal, signed_decimal_string};
use super::timestamp::{current_time, Timestamp};

verus! {

/// A transfer of `amount` from `sender` to `receiver`. An empty `sender`
/// marks value minted by the system. `signature` is reserved and stays empty.
#[derive(Debug)]
pub struct Transaction {
    pub id: String,
    pub sender: String,
    pub receiver: String,
    pub amount: u64,
    pub timestamp: Timestamp,
    pub signature: String,
}

/// The mathematical content of a [`Transaction`].
pub struct TransactionView {
    pub id: Seq<char>,
    pub sender: Seq<char>,
    pub receiver: Seq<char>,
    pub amount: u64,
    pub timestamp: Timestamp,
    pub signature: Seq<char>,
}

impl View for Transaction {
    type V = TransactionView;

    open spec fn view(&self) -> TransactionView {
        TransactionView {
            id: self.id@,
            sender: self.sender@,
            receiver: self.receiver@,
            amount: self.amount,
            timestamp: self.timestamp,
            signature: self.signature@,
        }
    }
}

/// The contents of a list of records, one by one.
pub open spec fn views(records: Seq<Transaction>) -> Seq<TransactionView> {
    records.map_values(|t: Transaction| t@)
}

impl TransactionView {
    /// The text that is digested: sender, receiver, amount and timestamp
    /// seconds in decimal, and signature, one after the other. The identifier
    /// and the nanoseconds are not part of it.
    pub open spec fn preimage(self) -> Seq<char> {
        self.sender + self.receiver + decimal(self.amount as nat) + signed_decimal(
            self.timestamp.secs as int,
        ) + self.signature
    }

    /// The fingerprint of the record.
    pub open spec fn fingerprint(self) -> Seq<char> {
        fingerprint_of(self.preimage())
    }

    /// Whether the record mints value: it names no sender.
    pub open spec fn is_reward(self) -> bool {
        self.sender.len() == 0
    }
}

/// Calls `Uuid::new_v4` of the `uuid` crate and writes the result with its
/// `Display` impl.
///
/// Trusted, not proved: the text is the hyphenated form, 36 characters long.
/// Which identifier comes back is not stated, nor that two calls differ.
/// `Uuid::new_v4` panics where the system has no random bytes to give;
/// nothing here rules that out.
#[verifier::external_body]
fn fresh_id() -> (id: String)
    ensures
        id@.len() == 36,
{
    Uuid::new_v4().to_string()
}

impl Clone for Transaction {
    fn clone(&self) -> (copy: Self)
        ensures
            copy == *self,
    {
        Transaction {
            id: self.id.clone(),
            sender: self.sender.clone(),
            receiver: self.receiver.clone(),
            amount: self.amount,
            timestamp: self.timestamp,
            signature: self.signature.clone(),
        }
    }
}

impl Transaction {
    /// A record with a fresh identifier, stamped with the current time and
    /// left unsigned. Nothing is validated here.
    pub fn new(sender: String, receiver: String, amount: u64) -> (tx: Self)
        ensures
            tx@.sender == sender@,
            tx@.receiver == receiver@,
            tx@.amount == amount,
            tx@.signature == Seq::<char>::empty(),
            tx@.id.len() == 36,
            tx@.timestamp.nanos < 1_000_000_000,
    {
        Self::with_identity(fresh_id(), current_time(), sender, receiver, amount)
    }

    /// The unsigned record with the given identifier and timestamp.
    pub fn with_identity(
        id: String,
        timestamp: Timestamp,
        sender: String,
        receiver: String,
        amount: u64,
    ) -> (tx: Self)
        ensures
            tx@ == (TransactionView {
                id: id@,
                sender: sender@,
                receiver: receiver@,
                amount,
                timestamp,
                signature: Seq::empty(),
            }),
    {
        Transaction { id, sender, receiver, amount, timestamp, signature: String::new() }
    }

    /// The fingerprint of the record, a function of its fields alone, and
    /// 64 characters long.
    pub fn calculate_hash(&self) -> (digest: String)
        ensures
            digest@ == self@.fingerprint(),
            digest@.len() == FINGERPRINT_LENGTH,
    {
        let mut text = self.sender.clone();
        text.append(self.receiver.as_str());
        text.append(decimal_string(self.amount).as_str());
        text.append(signed_decimal_string(self.timestamp.secs).as_str());
        text.append(self.signature.as_str());
        fingerprint(text.as_str())
    }
}

} // verus!
