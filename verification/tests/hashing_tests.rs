use rustchain::hashing::{fnv1a_absorb, u64_to_dec_ascii, FNV_OFFSET_BASIS};
use rustchain::transaction::{hash_transaction, Transaction};

// The mixing primitive against known values: the empty input digests to
// the offset basis, and one byte takes one step.
#[test]
fn fnv1a_known_values() {
    assert_eq!(fnv1a_absorb(FNV_OFFSET_BASIS, &[]), FNV_OFFSET_BASIS);
    assert_eq!(fnv1a_absorb(FNV_OFFSET_BASIS, b"a"), 12638187200555641996);
}

// Decimal rendering: most significant digit first, no leading zeroes.
#[test]
fn decimal_rendering() {
    assert_eq!(u64_to_dec_ascii(0), b"0".to_vec());
    assert_eq!(u64_to_dec_ascii(7), b"7".to_vec());
    assert_eq!(u64_to_dec_ascii(100), b"100".to_vec());
    assert_eq!(u64_to_dec_ascii(987654321), b"987654321".to_vec());
    assert_eq!(u64_to_dec_ascii(u64::MAX), b"18446744073709551615".to_vec());
}

// Exact transaction digests for fixed field triples.
#[test]
fn transaction_digest_expected_values() {
    let empty = Transaction {
        sender: String::new(),
        recipient: String::new(),
        amount: String::new(),
    };
    assert_eq!(hash_transaction(&empty), 9354609568656401157);
    let ab1 = Transaction {
        sender: String::from("a"),
        recipient: String::from("b"),
        amount: String::from("1"),
    };
    assert_eq!(hash_transaction(&ab1), 15628603230917043174);
}

// Transaction hash stability: equal amounts written in different literal
// forms collapse to one canonical string, hence one digest; genuinely
// different amounts digest differently.
#[test]
fn transaction_hash_stability() {
    let one_plain = Transaction {
        sender: String::from("a"),
        recipient: String::from("b"),
        amount: 1.0f64.to_string(),
    };
    let one_long = Transaction {
        sender: String::from("a"),
        recipient: String::from("b"),
        amount: 1.00000000f64.to_string(),
    };
    assert_eq!(hash_transaction(&one_plain), hash_transaction(&one_long));
    let two = Transaction {
        sender: String::from("a"),
        recipient: String::from("b"),
        amount: 2.0f64.to_string(),
    };
    assert_ne!(hash_transaction(&one_plain), hash_transaction(&two));
}

// The digest reads every field: varying a single one changes it.
#[test]
fn transaction_digest_distinguishes_fields() {
    let base = Transaction {
        sender: String::from("a"),
        recipient: String::from("b"),
        amount: String::from("1"),
    };
    let other_sender = Transaction { sender: String::from("x"), ..base.clone() };
    let other_recipient = Transaction { recipient: String::from("x"), ..base.clone() };
    let other_amount = Transaction { amount: String::from("2"), ..base.clone() };
    assert_ne!(hash_transaction(&base), hash_transaction(&other_sender));
    assert_ne!(hash_transaction(&base), hash_transaction(&other_recipient));
    assert_ne!(hash_transaction(&base), hash_transaction(&other_amount));
}
