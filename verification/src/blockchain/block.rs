//! Blocks: an ordered batch of records, linked to its predecessor by that
//! block's hash and sealed by a nonce.

use vstd::prelude::*;
use vstd::string::*;

use super::digest::{fingerprint, fingerprint_of, FINGERPRINT_LENGTH};
use super::proof_of_work::{search_stops_at, ProofOfWork};
use super::text::{decimal, decimal_string, signed_decimal, signed_decimal_string, zeros};
use super::timestamp::{current_time, Timestamp};
use super::transaction::{views, Transaction, TransactionView};

verus! {

/// A block of the chain. `hash` is the stored fingerprint; it is meaningful
/// once the block has been mined.
#[derive(Debug)]
pub struct Block {
    pub index: u64,
    pub timestamp: Timestamp,
    pub transactions: Vec<Transaction>,
    pub previous_hash: String,
    pub hash: String,
    pub nonce: u64,
}

/// The mathematical content of a [`Block`].
pub struct BlockView {
    pub index: u64,
    pub timestamp: Timestamp,
    pub transactions: Seq<TransactionView>,
    pub previous_hash: Seq<char>,
    pub hash: Seq<char>,
    pub nonce: u64,
}

impl View for Block {
    type V = BlockView;

    open spec fn view(&self) -> BlockView {
        BlockView {
            index: self.index,
            timestamp: self.timestamp,
            transactions: views(self.transactions@),
            previous_hash: self.previous_hash@,
            hash: self.hash@,
            nonce: self.nonce,
        }
    }
}

/// The fingerprints of the records, in order, written one after the other.
pub open spec fn joined_fingerprints(records: Seq<TransactionView>) -> Seq<char>
    decreases records.len(),
{
    if records.len() == 0 {
        Seq::empty()
    } else {
        joined_fingerprints(records.drop_last()) + records.last().fingerprint()
    }
}

impl BlockView {
    /// A block that has not been mined: nonce 0 and the fingerprint that
    /// goes with it.
    pub open spec fn unmined(
        index: u64,
        timestamp: Timestamp,
        transactions: Seq<TransactionView>,
        previous_hash: Seq<char>,
    ) -> BlockView {
        let blank = BlockView {
            index,
            timestamp,
            transactions,
            previous_hash,
            hash: Seq::empty(),
            nonce: 0,
        };
        blank.sealed(0)
    }

    /// The first block of a chain made at `timestamp`: index 0, no records,
    /// and `"0"` in place of a predecessor's hash.
    pub open spec fn genesis_at(timestamp: Timestamp) -> BlockView {
        BlockView::unmined(0, timestamp, Seq::empty(), seq!['0'])
    }

    /// The text that is digested: index and timestamp seconds in decimal, the
    /// records' fingerprints, the predecessor's hash, and the nonce in
    /// decimal. The stored hash is not part of it.
    pub open spec fn preimage(self) -> Seq<char> {
        decimal(self.index as nat) + signed_decimal(self.timestamp.secs as int)
            + joined_fingerprints(self.transactions) + self.previous_hash + decimal(
            self.nonce as nat,
        )
    }

    /// The fingerprint recomputed from the block's current fields.
    pub open spec fn fingerprint(self) -> Seq<char> {
        fingerprint_of(self.preimage())
    }

    /// The same block with another nonce.
    pub open spec fn with_nonce(self, nonce: u64) -> BlockView {
        BlockView { nonce, ..self }
    }

    /// The same block carrying `nonce` and the fingerprint that goes with it.
    pub open spec fn sealed(self, nonce: u64) -> BlockView {
        BlockView { nonce, hash: self.with_nonce(nonce).fingerprint(), ..self }
    }

    /// Whether the stored hash is the fingerprint of the current fields.
    pub open spec fn is_intact(self) -> bool {
        self.hash == self.fingerprint()
    }

    /// Whether this block is what mining `before` at `difficulty` produces:
    /// `before` sealed with the nonce at which the search stops.
    pub open spec fn is_mined_from(self, before: BlockView, difficulty: nat) -> bool {
        &&& self == before.sealed(self.nonce)
        &&& search_stops_at(before, zeros(difficulty), self.nonce as nat)
    }

    /// Whether this is a first block: index 0, no records, and `"0"` in
    /// place of a predecessor's hash.
    pub open spec fn is_genesis(self) -> bool {
        &&& self.index == 0
        &&& self.transactions.len() == 0
        &&& self.previous_hash == seq!['0']
    }
}

impl Clone for Block {
    fn clone(&self) -> (copy: Self)
        ensures
            copy@ == self@,
            copy.transactions@ == self.transactions@,
    {
        let copy = Block {
            index: self.index,
            timestamp: self.timestamp,
            transactions: self.transactions.clone(),
            previous_hash: self.previous_hash.clone(),
            hash: self.hash.clone(),
            nonce: self.nonce,
        };
        assert(copy.transactions@ =~= self.transactions@);
        copy
    }
}

impl Block {
    /// A block stamped with the current time, with nonce 0 and the
    /// fingerprint that goes with it.
    pub fn new(index: u64, transactions: Vec<Transaction>, previous_hash: String) -> (block: Self)
        ensures
            block@ == BlockView::unmined(
                index,
                block@.timestamp,
                views(transactions@),
                previous_hash@,
            ),
            block@.hash.len() == FINGERPRINT_LENGTH,
            block@.timestamp.nanos < 1_000_000_000,
    {
        Self::with_timestamp(index, current_time(), transactions, previous_hash)
    }

    /// The block with the given timestamp, nonce 0 and the fingerprint that
    /// goes with it.
    pub fn with_timestamp(
        index: u64,
        timestamp: Timestamp,
        transactions: Vec<Transaction>,
        previous_hash: String,
    ) -> (block: Self)
        ensures
            block@ == BlockView::unmined(index, timestamp, views(transactions@), previous_hash@),
            block@.hash.len() == FINGERPRINT_LENGTH,
    {
        let mut block = Block {
            index,
            timestamp,
            transactions,
            previous_hash,
            hash: String::new(),
            nonce: 0,
        };
        block.hash = block.calculate_hash();
        block
    }

    /// The first block of a chain, stamped with the current time.
    pub fn genesis() -> (block: Self)
        ensures
            block@ == BlockView::genesis_at(block@.timestamp),
            block@.hash.len() == FINGERPRINT_LENGTH,
            block@.timestamp.nanos < 1_000_000_000,
    {
        let block = Self::new(0, Vec::new(), String::from_str("0"));
        proof {
            reveal_strlit("0");
            assert(block@.previous_hash =~= seq!['0']);
            assert(block@.transactions =~= Seq::<TransactionView>::empty());
        }
        block
    }

    /// The fingerprint recomputed from the block's current fields, 64
    /// characters long.
    pub fn calculate_hash(&self) -> (digest: String)
        ensures
            digest@ == self@.fingerprint(),
            digest@.len() == FINGERPRINT_LENGTH,
    {
        let mut joined = String::new();
        let mut i: usize = 0;
        while i < self.transactions.len()
            invariant
                i <= self.transactions@.len(),
                joined@ == joined_fingerprints(views(self.transactions@).subrange(0, i as int)),
            decreases self.transactions@.len() - i,
        {
            let digest = self.transactions[i].calculate_hash();
            joined.append(digest.as_str());
            proof {
                let upto = views(self.transactions@).subrange(0, i + 1);
                assert(upto.drop_last() =~= views(self.transactions@).subrange(0, i as int));
                assert(upto.last() == self.transactions@[i as int]@);
            }
            i += 1;
        }
        assert(views(self.transactions@).subrange(0, i as int) =~= views(self.transactions@));
        let mut text = decimal_string(self.index);
        text.append(signed_decimal_string(self.timestamp.secs).as_str());
        text.append(joined.as_str());
        text.append(self.previous_hash.as_str());
        text.append(decimal_string(self.nonce).as_str());
        fingerprint(text.as_str())
    }

    /// Searches for a nonce at `difficulty` and stores it with its hash.
    pub fn mine_block(&mut self, difficulty: usize)
        ensures
            final(self)@.is_mined_from(old(self)@, difficulty as nat),
            final(self)@.hash.len() == FINGERPRINT_LENGTH,
            final(self).transactions@ == old(self).transactions@,
    {
        let mut search = ProofOfWork::new(self.clone(), difficulty);
        let (hash, nonce) = search.run();
        self.hash = hash;
        self.nonce = nonce;
    }
}

} // verus!
