//! What the hash chain guarantees: a fingerprint is a function of the
//! digested fields, and a changed amount in a mined block shows as long as
//! SHA-256 tells the two texts apart.

use vstd::prelude::*;
use vstd::utf8::*;

use super::block::{joined_fingerprints, BlockView};
use super::chain::BlockchainView;
use super::digest::sha256;
use super::text::{
    decimal, lemma_decimal_injective, lemma_hex_injective, lemma_middle_cancels, signed_decimal,
};
use super::transaction::TransactionView;

verus! {

/// Whether SHA-256 tells the texts `a` and `b` apart: if they differ, so do
/// their digests.
pub open spec fn digests_apart(a: Seq<char>, b: Seq<char>) -> bool {
    a != b ==> sha256(encode_utf8(a)) != sha256(encode_utf8(b))
}

impl TransactionView {
    /// The same record moving another amount.
    pub open spec fn with_amount(self, amount: u64) -> TransactionView {
        TransactionView { amount, ..self }
    }
}

impl BlockView {
    /// The same block with the amount of record `j` replaced.
    pub open spec fn with_amount(self, j: int, amount: u64) -> BlockView {
        BlockView {
            transactions: self.transactions.update(j, self.transactions[j].with_amount(amount)),
            ..self
        }
    }
}

impl BlockchainView {
    /// The same ledger with the amount of record `j` of block `i` replaced.
    pub open spec fn with_amount(self, i: int, j: int, amount: u64) -> BlockchainView {
        BlockchainView { chain: self.chain.update(i, self.chain[i].with_amount(j, amount)), ..self }
    }
}

/// A ledger of one block is valid at any difficulty: only the blocks after
/// the first are judged.
pub proof fn lemma_single_block_is_valid(ledger: BlockchainView)
    requires
        ledger.chain.len() <= 1,
    ensures
        ledger.is_valid(),
{
}

/// In a linked ledger, every block after the first stores the fingerprint
/// of its own fields and the hash that the block before it stores.
pub proof fn lemma_linked_blocks_are_intact(ledger: BlockchainView, i: int)
    requires
        ledger.is_linked(),
        0 < i < ledger.chain.len(),
    ensures
        ledger.chain[i].hash == ledger.chain[i].fingerprint(),
        ledger.chain[i].previous_hash == ledger.chain[i - 1].hash,
{
    assert(ledger.link_holds(i));
}

/// The fingerprint of a block depends on nothing but its index, the seconds
/// of its timestamp, the fingerprints of its records, the predecessor's hash
/// and the nonce: two blocks that agree on these have the same fingerprint,
/// whatever their stored hashes are.
pub proof fn lemma_fingerprint_is_determined(a: BlockView, b: BlockView)
    requires
        a.index == b.index,
        a.timestamp.secs == b.timestamp.secs,
        joined_fingerprints(a.transactions) == joined_fingerprints(b.transactions),
        a.previous_hash == b.previous_hash,
        a.nonce == b.nonce,
    ensures
        a.fingerprint() == b.fingerprint(),
{
}

/// The joined fingerprints of two lists, one after the other, are those of
/// the two lists put together.
pub proof fn lemma_joined_fingerprints_concat(
    front: Seq<TransactionView>,
    rest: Seq<TransactionView>,
)
    ensures
        joined_fingerprints(front + rest) == joined_fingerprints(front) + joined_fingerprints(rest),
    decreases rest.len(),
{
    if rest.len() == 0 {
        assert(front + rest =~= front);
        assert(joined_fingerprints(front) + joined_fingerprints(rest) =~= joined_fingerprints(
            front,
        ));
    } else {
        assert((front + rest).drop_last() =~= front + rest.drop_last());
        assert((front + rest).last() == rest.last());
        lemma_joined_fingerprints_concat(front, rest.drop_last());
        assert(joined_fingerprints(front + rest) =~= joined_fingerprints(front)
            + joined_fingerprints(rest));
    }
}

/// The joined fingerprints of a single record are its fingerprint.
pub proof fn lemma_joined_fingerprints_single(record: TransactionView)
    ensures
        joined_fingerprints(seq![record]) == record.fingerprint(),
{
    let nothing = Seq::<TransactionView>::empty();
    assert(seq![record].drop_last() =~= nothing);
    assert(joined_fingerprints(nothing) =~= Seq::<char>::empty());
    assert(seq![record].last() == record);
    assert(joined_fingerprints(seq![record]) =~= record.fingerprint());
}

/// A record with another amount has another fingerprint, as long as SHA-256
/// tells the two digested texts apart.
pub proof fn lemma_amount_shows_in_fingerprint(record: TransactionView, amount: u64)
    requires
        amount != record.amount,
        digests_apart(record.preimage(), record.with_amount(amount).preimage()),
    ensures
        record.with_amount(amount).fingerprint() != record.fingerprint(),
{
    let changed = record.with_amount(amount);
    let front = record.sender + record.receiver;
    let back = signed_decimal(record.timestamp.secs as int) + record.signature;
    assert(record.preimage() =~= front + decimal(record.amount as nat) + back);
    assert(changed.preimage() =~= front + decimal(amount as nat) + back);
    if record.preimage() == changed.preimage() {
        lemma_middle_cancels(front, decimal(record.amount as nat), decimal(amount as nat), back);
        lemma_decimal_injective(record.amount as nat, amount as nat);
    }
    if changed.fingerprint() == record.fingerprint() {
        lemma_hex_injective(
            sha256(encode_utf8(changed.preimage())),
            sha256(encode_utf8(record.preimage())),
        );
    }
}

/// Tamper detection. Take a block after the first whose stored hash is the
/// fingerprint of its fields, and replace the amount of one of its records
/// by a different one. As long as SHA-256 tells the old and the new text of
/// the record apart, and the old and the new text of the block, the stored
/// hash is no longer the block's fingerprint, and the ledger is not valid.
pub proof fn lemma_tampering_is_detected(ledger: BlockchainView, i: int, j: int, amount: u64)
    requires
        0 < i < ledger.chain.len(),
        0 <= j < ledger.chain[i].transactions.len(),
        ledger.chain[i].is_intact(),
        amount != ledger.chain[i].transactions[j].amount,
        digests_apart(
            ledger.chain[i].transactions[j].preimage(),
            ledger.chain[i].transactions[j].with_amount(amount).preimage(),
        ),
        digests_apart(ledger.chain[i].preimage(), ledger.chain[i].with_amount(j, amount).preimage()),
    ensures
        !ledger.with_amount(i, j, amount).chain[i].is_intact(),
        !ledger.with_amount(i, j, amount).is_valid(),
{
    let block = ledger.chain[i];
    let forged = block.with_amount(j, amount);
    let record = block.transactions[j];
    let changed = record.with_amount(amount);
    lemma_amount_shows_in_fingerprint(record, amount);

    let before = block.transactions.subrange(0, j);
    let after = block.transactions.subrange(j + 1, block.transactions.len() as int);
    assert(block.transactions =~= before + seq![record] + after);
    assert(forged.transactions =~= before + seq![changed] + after);
    lemma_joined_fingerprints_concat(before + seq![record], after);
    lemma_joined_fingerprints_concat(before, seq![record]);
    lemma_joined_fingerprints_concat(before + seq![changed], after);
    lemma_joined_fingerprints_concat(before, seq![changed]);
    lemma_joined_fingerprints_single(record);
    lemma_joined_fingerprints_single(changed);
    if joined_fingerprints(block.transactions) == joined_fingerprints(forged.transactions) {
        lemma_middle_cancels(
            joined_fingerprints(before),
            record.fingerprint(),
            changed.fingerprint(),
            joined_fingerprints(after),
        );
    }
    let front = decimal(block.index as nat) + signed_decimal(block.timestamp.secs as int);
    let back = block.previous_hash + decimal(block.nonce as nat);
    assert(block.preimage() =~= front + joined_fingerprints(block.transactions) + back);
    assert(forged.preimage() =~= front + joined_fingerprints(forged.transactions) + back);
    if block.preimage() == forged.preimage() {
        lemma_middle_cancels(
            front,
            joined_fingerprints(block.transactions),
            joined_fingerprints(forged.transactions),
            back,
        );
    }
    if forged.fingerprint() == block.fingerprint() {
        lemma_hex_injective(
            sha256(encode_utf8(forged.preimage())),
            sha256(encode_utf8(block.preimage())),
        );
    }
    let tampered = ledger.with_amount(i, j, amount);
    assert(tampered.chain[i] == forged);
    assert(!tampered.block_holds(i));
}

/// Tamper detection on a valid ledger. A ledger that is valid stops being
/// valid when the amount of a record in one of its mined blocks is replaced
/// by a different one and the stored hash is left as it was, as long as
/// SHA-256 tells the old and the new text of the record apart, and the old
/// and the new text of the block.
pub proof fn lemma_tampering_breaks_validity(ledger: BlockchainView, i: int, j: int, amount: u64)
    requires
        ledger.is_valid(),
        0 < i < ledger.chain.len(),
        0 <= j < ledger.chain[i].transactions.len(),
        amount != ledger.chain[i].transactions[j].amount,
        digests_apart(
            ledger.chain[i].transactions[j].preimage(),
            ledger.chain[i].transactions[j].with_amount(amount).preimage(),
        ),
        digests_apart(ledger.chain[i].preimage(), ledger.chain[i].with_amount(j, amount).preimage()),
    ensures
        ledger.with_amount(i, j, amount).chain[i].hash == ledger.chain[i].hash,
        !ledger.with_amount(i, j, amount).is_valid(),
{
    assert(ledger.block_holds(i));
    lemma_tampering_is_detected(ledger, i, j, amount);
}

} // verus!
