use ledger_engine::blockchain::{Timestamp, Transaction};

fn record(sender: &str, receiver: &str, amount: u64, secs: i64) -> Transaction {
    Transaction::with_identity(
        String::from("id-1"),
        Timestamp { secs, nanos: 0 },
        String::from(sender),
        String::from(receiver),
        amount,
    )
}

#[test]
fn new_record_is_unsigned_and_keeps_its_fields() {
    let tx = Transaction::new(String::from("alice"), String::from("bob"), 50);
    assert_eq!(tx.sender, "alice");
    assert_eq!(tx.receiver, "bob");
    assert_eq!(tx.amount, 50);
    assert_eq!(tx.signature, "");
    assert_eq!(tx.id.chars().count(), 36);
    assert!(tx.timestamp.secs > 0);
    assert!(tx.timestamp.nanos < 1_000_000_000);
}

#[test]
fn new_records_get_different_identifiers() {
    let a = Transaction::new(String::from("alice"), String::from("bob"), 1);
    let b = Transaction::new(String::from("alice"), String::from("bob"), 1);
    assert_ne!(a.id, b.id);
}

#[test]
fn new_validates_nothing() {
    let tx = Transaction::new(String::new(), String::new(), 0);
    assert_eq!(tx.sender, "");
    assert_eq!(tx.receiver, "");
    assert_eq!(tx.amount, 0);
}

#[test]
fn with_identity_keeps_every_field() {
    let tx = Transaction::with_identity(
        String::from("the-id"),
        Timestamp { secs: 12, nanos: 34 },
        String::from("alice"),
        String::from("bob"),
        9,
    );
    assert_eq!(tx.id, "the-id");
    assert_eq!(tx.timestamp, Timestamp { secs: 12, nanos: 34 });
    assert_eq!(tx.sender, "alice");
    assert_eq!(tx.receiver, "bob");
    assert_eq!(tx.amount, 9);
    assert_eq!(tx.signature, "");
}

#[test]
fn record_hash_has_the_expected_value() {
    let tx = record("alice", "bob", 50, 1_700_000_000);
    assert_eq!(
        tx.calculate_hash(),
        "b1012de89dd2cc2ae177699189c319b5f9e9fb8ed1b45a7ca233d5f249330656"
    );
}

#[test]
fn record_hash_with_negative_seconds() {
    let tx = record("a", "b", 7, -5);
    assert_eq!(
        tx.calculate_hash(),
        "fc71824e183874efcbdc526c0ff6c96b67b1d4055bc2eaca631499eb5222f746"
    );
}

#[test]
fn record_hash_covers_the_signature_and_non_ascii_text() {
    let mut tx = record("zoë", "bob", 1, 0);
    tx.signature = String::from("sig");
    assert_eq!(
        tx.calculate_hash(),
        "d20c9b458a18774f1caafb90c047af53efb4b99f8a344c156541c6420e2c73b8"
    );
}

#[test]
fn record_hash_has_sixty_four_lower_case_hex_digits() {
    let digest = record("zoë", "bob", u64::MAX, i64::MIN).calculate_hash();
    assert_eq!(digest.chars().count(), 64);
    assert!(digest.chars().all(|c| matches!(c, '0'..='9' | 'a'..='f')));
}

#[test]
fn record_hash_is_the_same_when_asked_twice() {
    let tx = record("alice", "bob", 50, 1_700_000_000);
    assert_eq!(tx.calculate_hash(), tx.calculate_hash());
}

#[test]
fn record_hash_ignores_identifier_and_nanoseconds() {
    let a = record("alice", "bob", 50, 1_700_000_000);
    let mut b = record("alice", "bob", 50, 1_700_000_000);
    b.id = String::from("another-id");
    b.timestamp.nanos = 999;
    assert_eq!(a.calculate_hash(), b.calculate_hash());
}

#[test]
fn record_hash_changes_with_the_amount() {
    let a = record("alice", "bob", 50, 1_700_000_000);
    let b = record("alice", "bob", 51, 1_700_000_000);
    assert_ne!(a.calculate_hash(), b.calculate_hash());
}

#[test]
fn clone_copies_every_field() {
    let mut tx = record("alice", "bob", 50, 1_700_000_000);
    tx.signature = String::from("s");
    let copy = tx.clone();
    assert_eq!(copy.id, tx.id);
    assert_eq!(copy.sender, tx.sender);
    assert_eq!(copy.receiver, tx.receiver);
    assert_eq!(copy.amount, tx.amount);
    assert_eq!(copy.timestamp, tx.timestamp);
    assert_eq!(copy.signature, tx.signature);
}
