use rustchain::blockchain::{proof_of_work, valid_proof};

// Proof-of-work soundness: the returned proof satisfies the difficulty
// predicate, and no smaller candidate does.
#[test]
fn proof_of_work_soundness() {
    let found = proof_of_work(100).unwrap();
    assert!(valid_proof(100, found));
    for candidate in 0..found {
        assert!(!valid_proof(100, candidate));
    }
}

// The search is deterministic: an exact expected value for one input.
#[test]
fn proof_of_work_expected_value() {
    assert_eq!(proof_of_work(100), Some(21880));
}

// The predicate accepts and rejects fixed candidates.
#[test]
fn valid_proof_fixed_candidates() {
    assert!(valid_proof(100, 21880));
    assert!(!valid_proof(100, 0));
    assert!(!valid_proof(100, 21879));
}

// The predicate reads both arguments: an accepted candidate for one
// previous proof is not accepted for another.
#[test]
fn valid_proof_depends_on_previous() {
    assert!(valid_proof(100, 21880));
    assert!(!valid_proof(101, 21880));
}
