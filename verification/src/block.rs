//! One entry of the chain: an index, a proof-of-work value, the digest of
//! the preceding block, a creation timestamp, and the transactions sealed
//! into it. A block is immutable once constructed.
//!
//! The block digest is computed over index, proof, previous-block digest
//! and the ordered transaction list, in that fixed order; the timestamp is
//! informational only and never participates in the digest or in any
//! invariant.

use crate::hashing::{
    fnv1a, fnv1a_absorb_u64, fnv1a_from, lemma_fnv1a_from_concat, FNV_OFFSET_BASIS,
};
use crate::transaction::{
    fnv1a_absorb_transaction, spec_transaction_bytes, Transaction, TransactionView,
};
use vstd::bytes::spec_u64_to_le_bytes;
use vstd::prelude::*;

verus! {

/// A point in time: whole seconds and subsecond nanoseconds since the
/// Unix epoch.
#[derive(Clone, Copy, Debug, PartialEq, Eq, Structural)]
pub struct Timestamp {
    pub secs: u64,
    pub nanos: u32,
}

/// Relies on `std::time::SystemTime::now` and
/// `SystemTime::duration_since(UNIX_EPOCH)` to read the wall clock: the
/// result is the seconds and subsecond nanoseconds elapsed since the Unix
/// epoch, with the nanosecond part below one billion. A clock that reports
/// a time before the epoch indicates a broken host and aborts, as a fatal
/// condition rather than a recoverable error.
#[verifier::external_body]
fn current_unix_time() -> (r: Timestamp)
    ensures
        r.nanos < 1_000_000_000,
{
    let elapsed = std::time::SystemTime::now()
        .duration_since(std::time::UNIX_EPOCH)
        .expect("negatively elapsed time");
    Timestamp { secs: elapsed.as_secs(), nanos: elapsed.subsec_nanos() }
}

/// An immutable entry in the chain.
#[derive(Debug, PartialEq)]
pub struct Block {
    index: u64,
    proof_value: u64,
    prev_hash: u64,
    timestamp: Timestamp,
    transactions: Vec<Transaction>,
}

/// The mathematical content of a [`Block`].
pub ghost struct BlockView {
    pub index: u64,
    pub proof_value: u64,
    pub prev_hash: u64,
    pub timestamp: Timestamp,
    pub transactions: Seq<TransactionView>,
}

impl View for Block {
    type V = BlockView;

    closed spec fn view(&self) -> BlockView {
        BlockView {
            index: self.index,
            proof_value: self.proof_value,
            prev_hash: self.prev_hash,
            timestamp: self.timestamp,
            transactions: self.transactions@.map_values(|t: Transaction| t@),
        }
    }
}

/// The bytes of a transaction list, in order, as fed into the digest.
pub open spec fn spec_transactions_bytes(ts: Seq<TransactionView>) -> Seq<u8>
    decreases ts.len(),
{
    if ts.len() == 0 {
        Seq::empty()
    } else {
        spec_transaction_bytes(ts[0]) + spec_transactions_bytes(ts.drop_first())
    }
}

/// Appending a transaction appends its bytes to the list's rendering.
pub proof fn lemma_transactions_bytes_push(ts: Seq<TransactionView>, t: TransactionView)
    ensures
        spec_transactions_bytes(ts.push(t)) == spec_transactions_bytes(ts)
            + spec_transaction_bytes(t),
    decreases ts.len(),
{
    if ts.len() == 0 {
        let p = ts.push(t);
        assert(p.len() == 1);
        assert(p[0] == t);
        assert(p.drop_first() =~= Seq::<TransactionView>::empty());
        assert(spec_transactions_bytes(p) == spec_transaction_bytes(t) + spec_transactions_bytes(
            p.drop_first(),
        ));
        assert(spec_transaction_bytes(t) + Seq::<u8>::empty() =~= spec_transaction_bytes(t));
        assert(spec_transactions_bytes(ts) + spec_transaction_bytes(t) =~= spec_transaction_bytes(
            t,
        ));
    } else {
        assert(ts.push(t)[0] == ts[0]);
        assert(ts.push(t).drop_first() =~= ts.drop_first().push(t));
        lemma_transactions_bytes_push(ts.drop_first(), t);
        assert(spec_transaction_bytes(ts[0]) + (spec_transactions_bytes(ts.drop_first())
            + spec_transaction_bytes(t)) =~= (spec_transaction_bytes(ts[0])
            + spec_transactions_bytes(ts.drop_first())) + spec_transaction_bytes(t));
    }
}

/// The bytes a block's content is digested over: index, proof,
/// previous-block digest, transaction count, then each transaction, in
/// that fixed order. The timestamp contributes nothing.
pub open spec fn spec_block_bytes(b: BlockView) -> Seq<u8> {
    spec_u64_to_le_bytes(b.index) + spec_u64_to_le_bytes(b.proof_value) + spec_u64_to_le_bytes(
        b.prev_hash,
    ) + spec_u64_to_le_bytes(b.transactions.len() as u64) + spec_transactions_bytes(b.transactions)
}

/// The digest of a block: the linkage checksum its successor stores.
pub open spec fn spec_block_digest(b: BlockView) -> u64 {
    fnv1a(spec_block_bytes(b))
}

/// The digest reads nothing but index, proof, previous-block digest and
/// the transaction list: two blocks that agree on those four fields have
/// the same digest, whatever their timestamps.
pub proof fn lemma_digest_ignores_timestamp(b1: BlockView, b2: BlockView)
    requires
        b1.index == b2.index,
        b1.proof_value == b2.proof_value,
        b1.prev_hash == b2.prev_hash,
        b1.transactions == b2.transactions,
    ensures
        spec_block_digest(b1) == spec_block_digest(b2),
{
}

impl Block {
    /// Seals a new block from the given content fields, stamping it with
    /// the present wall-clock time. Everything but the timestamp is fixed
    /// by the arguments.
    pub fn new(index: u64, proof_value: u64, prev_hash: u64, transactions: Vec<Transaction>) -> (r:
        Block)
        ensures
            r@.index == index,
            r@.proof_value == proof_value,
            r@.prev_hash == prev_hash,
            r@.transactions == transactions@.map_values(|t: Transaction| t@),
            r@.timestamp.nanos < 1_000_000_000,
    {
        let timestamp = current_unix_time();
        Block { index, proof_value, prev_hash, timestamp, transactions }
    }

    /// The position this block was given in the chain when appended.
    pub fn get_index(&self) -> (r: u64)
        ensures
            r == self@.index,
    {
        self.index
    }

    /// The digest of the preceding block, as recorded at append time.
    pub fn get_prev_hash(&self) -> (r: u64)
        ensures
            r == self@.prev_hash,
    {
        self.prev_hash
    }

    /// The proof-of-work value this block was sealed with.
    pub fn get_proof(&self) -> (r: u64)
        ensures
            r == self@.proof_value,
    {
        self.proof_value
    }

    /// The moment this block was sealed; informational only.
    pub fn get_timestamp(&self) -> (r: Timestamp)
        ensures
            r == self@.timestamp,
    {
        self.timestamp
    }

    /// A copy of the transactions sealed into this block.
    pub fn get_transactions(&self) -> (r: Vec<Transaction>)
        ensures
            r@.map_values(|t: Transaction| t@) == self@.transactions,
    {
        clone_transactions(&self.transactions)
    }
}

impl Clone for Block {
    fn clone(&self) -> (r: Self)
        ensures
            r@ == self@,
    {
        Block {
            index: self.index,
            proof_value: self.proof_value,
            prev_hash: self.prev_hash,
            timestamp: self.timestamp,
            transactions: clone_transactions(&self.transactions),
        }
    }
}

/// Copies a transaction list element by element, preserving content and
/// order.
pub fn clone_transactions(ts: &Vec<Transaction>) -> (r: Vec<Transaction>)
    ensures
        r@.map_values(|t: Transaction| t@) == ts@.map_values(|t: Transaction| t@),
        r@.len() == ts@.len(),
{
    let mut r: Vec<Transaction> = Vec::new();
    let n: usize = ts.len();
    let mut i: usize = 0;
    while i < n
        invariant
            i <= n,
            n == ts@.len(),
            r@.len() == i,
            forall|j: int| 0 <= j < i ==> r@[j]@ == ts@[j]@,
        decreases n - i,
    {
        r.push(ts[i].clone());
        i = i + 1;
    }
    proof {
        assert(r@.map_values(|t: Transaction| t@) =~= ts@.map_values(|t: Transaction| t@));
    }
    r
}

/// The digest of a block's content. A free function rather than a method:
/// a block is hashed on behalf of its successor, never by itself.
pub fn hash(block: &Block) -> (r: u64)
    ensures
        r == spec_block_digest(block@),
{
    let ghost b1 = spec_u64_to_le_bytes(block@.index);
    let ghost b2 = spec_u64_to_le_bytes(block@.proof_value);
    let ghost b3 = spec_u64_to_le_bytes(block@.prev_hash);
    let ghost b4 = spec_u64_to_le_bytes(block@.transactions.len() as u64);
    let h1 = fnv1a_absorb_u64(FNV_OFFSET_BASIS, block.index);
    let h2 = fnv1a_absorb_u64(h1, block.proof_value);
    let h3 = fnv1a_absorb_u64(h2, block.prev_hash);
    let h4 = fnv1a_absorb_u64(h3, block.transactions.len() as u64);
    let mut h: u64 = h4;
    let n: usize = block.transactions.len();
    let mut i: usize = 0;
    proof {
        lemma_fnv1a_from_concat(FNV_OFFSET_BASIS, b1, b2);
        lemma_fnv1a_from_concat(FNV_OFFSET_BASIS, b1 + b2, b3);
        lemma_fnv1a_from_concat(FNV_OFFSET_BASIS, b1 + b2 + b3, b4);
        assert(block@.transactions.take(0) =~= Seq::<TransactionView>::empty());
    }
    while i < n
        invariant
            i <= n,
            n == block.transactions@.len(),
            block@.transactions.len() == n,
            forall|j: int|
                0 <= j < n ==> block@.transactions[j] == #[trigger] block.transactions@[j]@,
            h == fnv1a_from(h4, spec_transactions_bytes(block@.transactions.take(i as int))),
        decreases n - i,
    {
        proof {
            assert(block@.transactions.take(i + 1) =~= block@.transactions.take(i as int).push(
                block@.transactions[i as int],
            ));
            lemma_transactions_bytes_push(
                block@.transactions.take(i as int),
                block@.transactions[i as int],
            );
            lemma_fnv1a_from_concat(
                h4,
                spec_transactions_bytes(block@.transactions.take(i as int)),
                spec_transaction_bytes(block@.transactions[i as int]),
            );
        }
        h = fnv1a_absorb_transaction(h, &block.transactions[i]);
        i = i + 1;
    }
    proof {
        assert(block@.transactions.take(n as int) =~= block@.transactions);
        lemma_fnv1a_from_concat(
            FNV_OFFSET_BASIS,
            b1 + b2 + b3 + b4,
            spec_transactions_bytes(block@.transactions),
        );
    }
    h
}

} // verus!
