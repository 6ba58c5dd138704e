//! A transfer recorded by the ledger: a sender, a recipient, and an
//! amount. The amount is held in its canonical decimal string form, fixed
//! at the boundary where the value enters the library: hashing a raw
//! floating-point representation would be unsound (NaN inequality,
//! representation instability), so only the canonical rendering
//! participates in any digest.

use crate::hashing::{
    fnv1a, fnv1a_absorb_str, fnv1a_absorb_u64, fnv1a_from, lemma_fnv1a_from_concat, str_bytes,
    FNV_OFFSET_BASIS,
};
use vstd::bytes::spec_u64_to_le_bytes;
use vstd::prelude::*;
use vstd::string::StrSliceExecFns;

verus! {

/// An immutable transfer of `amount` from `sender` to `recipient`.
///
/// `amount` is the canonical decimal rendering of the transferred value;
/// equal values in different written forms collapse to the same string
/// before they ever reach the ledger.
#[derive(Debug, PartialEq)]
pub struct Transaction {
    pub sender: String,
    pub recipient: String,
    pub amount: String,
}

/// The mathematical content of a [`Transaction`]: its three fields as
/// character sequences.
pub ghost struct TransactionView {
    pub sender: Seq<char>,
    pub recipient: Seq<char>,
    pub amount: Seq<char>,
}

impl View for Transaction {
    type V = TransactionView;

    open spec fn view(&self) -> TransactionView {
        TransactionView { sender: self.sender@, recipient: self.recipient@, amount: self.amount@ }
    }
}

impl Clone for Transaction {
    fn clone(&self) -> (r: Self)
        ensures
            r@ == self@,
    {
        Transaction {
            sender: self.sender.clone(),
            recipient: self.recipient.clone(),
            amount: self.amount.clone(),
        }
    }
}

/// The bytes a transaction contributes to any digest: sender, recipient
/// and canonical amount string, in that fixed order, each preceded by its
/// length so that no two distinct field triples share a rendering.
pub open spec fn spec_transaction_bytes(t: TransactionView) -> Seq<u8> {
    spec_u64_to_le_bytes(t.sender.len() as u64) + str_bytes(t.sender) + spec_u64_to_le_bytes(
        t.recipient.len() as u64,
    ) + str_bytes(t.recipient) + spec_u64_to_le_bytes(t.amount.len() as u64) + str_bytes(t.amount)
}

/// The digest of a single transaction.
pub open spec fn spec_transaction_digest(t: TransactionView) -> u64 {
    fnv1a(spec_transaction_bytes(t))
}

/// Absorbs a transaction's byte contribution into the digest state `h0`.
pub fn fnv1a_absorb_transaction(h0: u64, t: &Transaction) -> (r: u64)
    ensures
        r == fnv1a_from(h0, spec_transaction_bytes(t@)),
{
    let ghost b1 = spec_u64_to_le_bytes(t@.sender.len() as u64);
    let ghost b2 = str_bytes(t@.sender);
    let ghost b3 = spec_u64_to_le_bytes(t@.recipient.len() as u64);
    let ghost b4 = str_bytes(t@.recipient);
    let ghost b5 = spec_u64_to_le_bytes(t@.amount.len() as u64);
    let ghost b6 = str_bytes(t@.amount);
    let h1 = fnv1a_absorb_u64(h0, t.sender.as_str().unicode_len() as u64);
    let h2 = fnv1a_absorb_str(h1, t.sender.as_str());
    let h3 = fnv1a_absorb_u64(h2, t.recipient.as_str().unicode_len() as u64);
    let h4 = fnv1a_absorb_str(h3, t.recipient.as_str());
    let h5 = fnv1a_absorb_u64(h4, t.amount.as_str().unicode_len() as u64);
    let h6 = fnv1a_absorb_str(h5, t.amount.as_str());
    proof {
        lemma_fnv1a_from_concat(h0, b1, b2);
        lemma_fnv1a_from_concat(h0, b1 + b2, b3);
        lemma_fnv1a_from_concat(h0, b1 + b2 + b3, b4);
        lemma_fnv1a_from_concat(h0, b1 + b2 + b3 + b4, b5);
        lemma_fnv1a_from_concat(h0, b1 + b2 + b3 + b4 + b5, b6);
    }
    h6
}

/// The digest of one transaction on its own, as fed into the chain's
/// hasher: deterministic in the three fields alone.
pub fn hash_transaction(t: &Transaction) -> (r: u64)
    ensures
        r == spec_transaction_digest(t@),
{
    fnv1a_absorb_transaction(FNV_OFFSET_BASIS, t)
}

} // verus!
