use rustchain::block::{hash, Block};
use rustchain::transaction::Transaction;

// A block can be constructed without panicking.
#[test]
fn test_init_block() {
    let block = Block::new(0, 0, 0, Vec::new());
    println!("{:?}", block);
}

// Two blocks with identical content fields hash identically, even though
// their creation timestamps differ: the timestamp never enters the digest.
#[test]
fn test_hash_block() {
    let block_1 = Block::new(0, 0, 0, Vec::new());
    let block_2 = Block::new(0, 0, 0, Vec::new());
    assert!(hash(&block_1) == hash(&block_2));
}

// The digest of the same block value, computed twice, is the same.
#[test]
fn hash_is_deterministic() {
    let t = Transaction {
        sender: String::from("A"),
        recipient: String::from("B"),
        amount: 5.0f64.to_string(),
    };
    let block = Block::new(3, 9, 17, vec![t]);
    assert_eq!(hash(&block), hash(&block));
}

// Exact digests of fixed block contents.
#[test]
fn hash_expected_values() {
    let zero = Block::new(0, 0, 0, Vec::new());
    assert_eq!(hash(&zero), 901300984310592933);
    let idx_one = Block::new(1, 0, 0, Vec::new());
    assert_eq!(hash(&idx_one), 516046512524145956);
    let with_tx = Block::new(
        0,
        0,
        0,
        vec![Transaction {
            sender: String::from("A"),
            recipient: String::from("B"),
            amount: 5.0f64.to_string(),
        }],
    );
    assert_eq!(hash(&with_tx), 8166951635108478259);
}

// Changing any single content field changes the digest.
#[test]
fn hash_distinguishes_fields() {
    let base = hash(&Block::new(0, 0, 0, Vec::new()));
    assert_ne!(base, hash(&Block::new(1, 0, 0, Vec::new())));
    assert_ne!(base, hash(&Block::new(0, 1, 0, Vec::new())));
    assert_ne!(base, hash(&Block::new(0, 0, 1, Vec::new())));
    let t = Transaction {
        sender: String::from("A"),
        recipient: String::from("B"),
        amount: String::from("5"),
    };
    assert_ne!(base, hash(&Block::new(0, 0, 0, vec![t])));
}

// The digest is order-sensitive: swapping two transactions changes it.
#[test]
fn hash_distinguishes_transaction_order() {
    let ab5 = Transaction {
        sender: String::from("A"),
        recipient: String::from("B"),
        amount: String::from("5"),
    };
    let cd7 = Transaction {
        sender: String::from("C"),
        recipient: String::from("D"),
        amount: String::from("7"),
    };
    let fwd = Block::new(0, 0, 0, vec![ab5.clone(), cd7.clone()]);
    let rev = Block::new(0, 0, 0, vec![cd7, ab5]);
    assert_eq!(hash(&fwd), 12405993875412670065);
    assert_eq!(hash(&rev), 9182144132620686673);
    assert_ne!(hash(&fwd), hash(&rev));
}

// Accessors report the fields a block was sealed with; the timestamp's
// nanosecond part is always below one billion.
#[test]
fn block_accessors() {
    let t = Transaction {
        sender: String::from("A"),
        recipient: String::from("B"),
        amount: String::from("5"),
    };
    let block = Block::new(4, 11, 23, vec![t.clone()]);
    assert_eq!(block.get_index(), 4);
    assert_eq!(block.get_proof(), 11);
    assert_eq!(block.get_prev_hash(), 23);
    assert_eq!(block.get_transactions(), vec![t]);
    assert!(block.get_timestamp().nanos < 1_000_000_000);
}
