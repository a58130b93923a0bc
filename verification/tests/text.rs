use ledger_engine::blockchain::digest::fingerprint;
use ledger_engine::blockchain::text::{
    decimal_string, hex_string, signed_decimal_string, starts_with, zeros_string,
};

#[test]
fn decimal_of_zero_is_one_digit() {
    assert_eq!(decimal_string(0), "0");
}

#[test]
fn decimal_of_small_and_large_numbers() {
    assert_eq!(decimal_string(7), "7");
    assert_eq!(decimal_string(10), "10");
    assert_eq!(decimal_string(1_700_000_000), "1700000000");
    assert_eq!(decimal_string(u64::MAX), "18446744073709551615");
}

#[test]
fn signed_decimal_carries_the_sign() {
    assert_eq!(signed_decimal_string(0), "0");
    assert_eq!(signed_decimal_string(42), "42");
    assert_eq!(signed_decimal_string(-5), "-5");
    assert_eq!(signed_decimal_string(i64::MIN), "-9223372036854775808");
    assert_eq!(signed_decimal_string(i64::MAX), "9223372036854775807");
}

#[test]
fn hex_is_two_lower_case_digits_per_byte() {
    assert_eq!(hex_string(&[]), "");
    assert_eq!(hex_string(&[0x00, 0x01, 0xab, 0xff, 0x10]), "0001abff10");
}

#[test]
fn zeros_has_the_asked_length() {
    assert_eq!(zeros_string(0), "");
    assert_eq!(zeros_string(1), "0");
    assert_eq!(zeros_string(4), "0000");
}

#[test]
fn starts_with_compares_characters() {
    assert!(starts_with("00ab", "00"));
    assert!(starts_with("00ab", ""));
    assert!(starts_with("", ""));
    assert!(starts_with("00", "00"));
    assert!(!starts_with("0", "00"));
    assert!(!starts_with("0a00", "00"));
    assert!(!starts_with("", "0"));
    assert!(starts_with("zoë-x", "zoë"));
    assert!(!starts_with("zoe-x", "zoë"));
}

#[test]
fn fingerprint_of_the_empty_text() {
    assert_eq!(
        fingerprint(""),
        "e3b0c44298fc1c149afbf4c8996fb92427ae41e4649b934ca495991b7852b855"
    );
}

#[test]
fn fingerprint_is_not_its_input() {
    let digest = fingerprint("alicebob501700000000");
    assert_eq!(digest.len(), 64);
    assert_eq!(digest, "b1012de89dd2cc2ae177699189c319b5f9e9fb8ed1b45a7ca233d5f249330656");
}
