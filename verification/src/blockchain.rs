//! The ledger itself: an append-only chain of blocks, opened by a genesis
//! block, plus the pool of transactions waiting to be sealed into the
//! next block. Also home of the proof-of-work puzzle that gates the
//! creation of new blocks.
//!
//! The ledger is a single shared mutable resource: a caller that serves
//! concurrent requests must hold one mutual-exclusion lock around each
//! individual operation. Two operations under two separate acquisitions
//! (queueing a transaction, then sealing a block) can interleave with
//! another caller's sealing, which may place the transaction in a
//! different block than the queueing call announced.

use crate::block::{
    clone_transactions, hash, spec_block_digest, Block, BlockView,
};
use crate::hashing::{dec_ascii, fnv1a, fnv1a_absorb, u64_to_dec_ascii, FNV_OFFSET_BASIS};
use crate::transaction::{Transaction, TransactionView};
use vstd::prelude::*;

verus! {

/// The fixed, well-known proof value of the genesis block.
pub const GENESIS_PROOF: u64 = 100;

/// The sentinel previous-hash of the genesis block: a constant, not the
/// digest of any real predecessor.
pub const GENESIS_PREV_HASH: u64 = 1;

/// The proof-of-work difficulty: a candidate is accepted when the decimal
/// rendering of the guess digest starts with the decimal rendering of
/// this constant. A tunable parameter, not a semantic requirement.
pub const POW_PREFIX: u64 = 100;

/// The ledger: the chain of sealed blocks and the pending-transaction
/// pool.
#[derive(Debug)]
pub struct Blockchain {
    chain: Vec<Block>,
    transactions: Vec<Transaction>,
}

/// The mathematical content of a [`Blockchain`]: the chain and the pool.
pub ghost struct BlockchainView {
    pub chain: Seq<BlockView>,
    pub transactions: Seq<TransactionView>,
}

impl View for Blockchain {
    type V = BlockchainView;

    closed spec fn view(&self) -> BlockchainView {
        BlockchainView {
            chain: self.chain@.map_values(|b: Block| b@),
            transactions: self.transactions@.map_values(|t: Transaction| t@),
        }
    }
}

/// The integrity condition of a chain: every block after the first stores
/// the digest of its predecessor.
pub open spec fn chain_linked(chain: Seq<BlockView>) -> bool {
    forall|i: int|
        1 <= i < chain.len() ==> (#[trigger] chain[i]).prev_hash == spec_block_digest(
            chain[i - 1],
        )
}

/// A chain with fewer than two blocks is vacuously linked: the genesis
/// block has no predecessor to check against.
pub proof fn lemma_short_chain_linked(chain: Seq<BlockView>)
    requires
        chain.len() <= 1,
    ensures
        chain_linked(chain),
{
}

/// Appending a block whose stored previous-hash is the digest of the
/// current last block keeps the chain linked. Applied once per appended
/// block, this gives the linkage invariant for any sequence of appends.
pub proof fn lemma_append_preserves_linkage(chain: Seq<BlockView>, b: BlockView)
    requires
        chain_linked(chain),
        chain.len() >= 1,
        b.prev_hash == spec_block_digest(chain.last()),
    ensures
        chain_linked(chain.push(b)),
{
    let p = chain.push(b);
    assert forall|i: int| 1 <= i < p.len() implies (#[trigger] p[i]).prev_hash == spec_block_digest(
        p[i - 1],
    ) by {
        if i < chain.len() {
            assert(p[i] == chain[i]);
            assert(p[i - 1] == chain[i - 1]);
        } else {
            assert(p[i] == b);
            assert(p[i - 1] == chain[chain.len() - 1]);
        }
    }
}

impl Blockchain {
    /// The well-formedness of a ledger: the chain is never empty (the
    /// genesis block is created at construction), and every block's
    /// stored index is its position in the chain. Construction
    /// establishes it; every mutation preserves it.
    pub open spec fn well_formed(self) -> bool {
        &&& self@.chain.len() >= 1
        &&& forall|i: int| 0 <= i < self@.chain.len() ==> (#[trigger] self@.chain[i]).index == i
    }

    /// Opens a fresh ledger holding only the genesis block: index zero,
    /// the fixed well-known proof, the sentinel previous-hash, and no
    /// transactions. The pool starts empty, and the chain is linked.
    pub fn new() -> (r: Blockchain)
        ensures
            r.well_formed(),
            r@.chain.len() == 1,
            r@.chain[0].index == 0,
            r@.chain[0].proof_value == GENESIS_PROOF,
            r@.chain[0].prev_hash == GENESIS_PREV_HASH,
            r@.chain[0].transactions == Seq::<TransactionView>::empty(),
            r@.transactions == Seq::<TransactionView>::empty(),
            chain_linked(r@.chain),
    {
        let no_transactions: Vec<Transaction> = Vec::new();
        proof {
            assert(no_transactions@.map_values(|t: Transaction| t@) =~= Seq::<
                TransactionView,
            >::empty());
        }
        let genesis = Block::new(0, GENESIS_PROOF, GENESIS_PREV_HASH, no_transactions);
        let mut chain: Vec<Block> = Vec::new();
        chain.push(genesis);
        let pool: Vec<Transaction> = Vec::new();
        let r = Blockchain { chain, transactions: pool };
        proof {
            assert(r@.chain =~= seq![genesis@]);
            assert(r@.transactions =~= Seq::<TransactionView>::empty());
            lemma_short_chain_linked(r@.chain);
        }
        r
    }

    /// The number of blocks sealed into the chain so far.
    pub fn get_chain_len(&self) -> (r: u64)
        ensures
            r == self@.chain.len(),
    {
        self.chain.len() as u64
    }

    /// A copy of the most recently appended block, if the chain holds at
    /// least one.
    pub fn get_last_block(&self) -> (r: Option<Block>)
        ensures
            match r {
                Some(b) => self@.chain.len() > 0 && b@ == self@.chain.last(),
                None => self@.chain.len() == 0,
            },
    {
        if self.chain.len() > 0 {
            Some(self.chain[self.chain.len() - 1].clone())
        } else {
            None
        }
    }

    /// Queues a transaction into the pending pool, leaving the chain
    /// untouched, and returns the index the next sealed block will
    /// receive: the block expected to hold this transaction. Advisory
    /// only: under concurrent callers another sealing may intervene
    /// between this call and the next one.
    pub fn push_transaction(&mut self, transaction: Transaction) -> (r: u64)
        requires
            old(self).well_formed(),
        ensures
            final(self).well_formed(),
            final(self)@.chain == old(self)@.chain,
            final(self)@.transactions == old(self)@.transactions.push(transaction@),
            r == old(self)@.chain.last().index + 1,
            r == old(self)@.chain.len(),
    {
        let ghost old_pool = self.transactions@.map_values(|t: Transaction| t@);
        self.transactions.push(transaction);
        proof {
            assert(self.transactions@.map_values(|t: Transaction| t@) =~= old_pool.push(
                transaction@,
            ));
        }
        if self.chain.len() == 0 {
            proof {
                assert(false);
            }
            0
        } else {
            let last_block = self.get_last_block();
            match last_block {
                Some(b) => b.get_index() + 1,
                None => {
                    proof {
                        assert(false);
                    }
                    0
                },
            }
        }
    }

    /// Seals a new block and appends it: the block takes the next index,
    /// the supplied proof, the effective previous-hash — the override if
    /// one is supplied, else the digest of the current last block — and
    /// the entire pending pool, unmodified and in order; the pool is
    /// reset to empty in the same operation. Sealing with no override
    /// keeps a linked chain linked.
    pub fn new_block(&mut self, proof_value: u64, previous_hash: Option<u64>)
        requires
            old(self).well_formed(),
        ensures
            final(self).well_formed(),
            final(self)@.chain.len() == old(self)@.chain.len() + 1,
            final(self)@.chain.take(old(self)@.chain.len() as int) == old(self)@.chain,
            final(self)@.chain.last().index == old(self)@.chain.len(),
            final(self)@.chain.last().proof_value == proof_value,
            final(self)@.chain.last().prev_hash == (match previous_hash {
                Some(h) => h,
                None => spec_block_digest(old(self)@.chain.last()),
            }),
            final(self)@.chain.last().transactions == old(self)@.transactions,
            final(self)@.transactions == Seq::<TransactionView>::empty(),
            chain_linked(old(self)@.chain) && previous_hash is None ==> chain_linked(
                final(self)@.chain,
            ),
    {
        let effective_prev_hash: u64 = match previous_hash {
            Some(i) => i,
            None => {
                let last_block = self.get_last_block();
                match last_block {
                    Some(b) => hash(&b),
                    None => {
                        proof {
                            assert(false);
                        }
                        0
                    },
                }
            },
        };
        let ghost old_chain = self@.chain;
        let ghost old_pool = self@.transactions;
        let sealed = clone_transactions(&self.transactions);
        proof {
            assert(sealed@.map_values(|t: Transaction| t@) == old_pool);
        }
        let block = Block::new(
            self.chain.len() as u64,
            proof_value,
            effective_prev_hash,
            sealed,
        );
        self.chain.push(block);
        self.transactions = Vec::new();
        proof {
            assert(self@.chain =~= old_chain.push(block@));
            assert(self@.transactions =~= Seq::<TransactionView>::empty());
            assert(self@.chain.take(old_chain.len() as int) =~= old_chain);
            if chain_linked(old_chain) && previous_hash is None {
                lemma_append_preserves_linkage(old_chain, block@);
            }
        }
    }

    /// A copy of the pending pool: the transactions queued but not yet
    /// sealed into a block.
    pub fn get_transactions(&self) -> (r: Vec<Transaction>)
        ensures
            r@.map_values(|t: Transaction| t@) == self@.transactions,
    {
        clone_transactions(&self.transactions)
    }

    /// A copy of the whole chain. Mutating the copy cannot touch the
    /// ledger.
    pub fn get_blocks(&self) -> (r: Vec<Block>)
        ensures
            r@.map_values(|b: Block| b@) == self@.chain,
    {
        let mut r: Vec<Block> = Vec::new();
        let n: usize = self.chain.len();
        let mut i: usize = 0;
        while i < n
            invariant
                i <= n,
                n == self.chain@.len(),
                r@.len() == i,
                forall|j: int| 0 <= j < i ==> r@[j]@ == self.chain@[j]@,
            decreases n - i,
        {
            r.push(self.chain[i].clone());
            i = i + 1;
        }
        proof {
            assert(r@.map_values(|b: Block| b@) =~= self.chain@.map_values(|b: Block| b@));
        }
        r
    }

    /// Walks the chain from the last block back to the second, re-hashing
    /// each predecessor and comparing against the stored previous-hash:
    /// true exactly when the whole chain is linked. A chain of length
    /// zero or one is vacuously valid.
    pub fn verify(&self) -> (r: bool)
        ensures
            r == chain_linked(self@.chain),
    {
        let n: usize = self.chain.len();
        if n <= 1 {
            proof {
                lemma_short_chain_linked(self@.chain);
            }
            return true;
        }
        let mut i: usize = n - 1;
        while i >= 1
            invariant
                i <= n - 1,
                n == self.chain@.len(),
                n >= 2,
                forall|j: int|
                    i < j < n ==> (#[trigger] self@.chain[j]).prev_hash == spec_block_digest(
                        self@.chain[j - 1],
                    ),
            decreases i,
        {
            let prev_digest = hash(&self.chain[i - 1]);
            if self.chain[i].get_prev_hash() != prev_digest {
                proof {
                    assert((self@.chain[i as int]).prev_hash != spec_block_digest(
                        self@.chain[i as int - 1],
                    ));
                }
                return false;
            }
            i = i - 1;
        }
        true
    }
}

/// The decimal digits a guess digest must start with to be accepted.
pub open spec fn spec_pow_target() -> Seq<u8> {
    dec_ascii(POW_PREFIX as nat)
}

/// The digest of a candidate guess: the previous proof and the candidate,
/// each rendered in decimal, concatenated in that fixed order, and
/// hashed.
pub open spec fn spec_guess_digest(proof_prime: u64, proof_value: u64) -> u64 {
    fnv1a(dec_ascii(proof_prime as nat) + dec_ascii(proof_value as nat))
}

/// The difficulty predicate: the decimal rendering of the guess digest
/// starts with the target digits.
pub open spec fn spec_valid_proof(proof_prime: u64, proof_value: u64) -> bool {
    let digits = dec_ascii(spec_guess_digest(proof_prime, proof_value) as nat);
    digits.len() >= spec_pow_target().len() && digits.take(spec_pow_target().len() as int)
        == spec_pow_target()
}

/// Decides whether `proof_value` is an accepted proof against the
/// previous block's proof `proof_prime`: cheap to check, and satisfiable
/// only by brute-force search.
pub fn valid_proof(proof_prime: u64, proof_value: u64) -> (r: bool)
    ensures
        r == spec_valid_proof(proof_prime, proof_value),
{
    let mut guess = u64_to_dec_ascii(proof_prime);
    let mut candidate_digits = u64_to_dec_ascii(proof_value);
    guess.append(&mut candidate_digits);
    let digest = fnv1a_absorb(FNV_OFFSET_BASIS, guess.as_slice());
    let digits = u64_to_dec_ascii(digest);
    let target = u64_to_dec_ascii(POW_PREFIX);
    if digits.len() < target.len() {
        return false;
    }
    let m: usize = target.len();
    let mut j: usize = 0;
    while j < m
        invariant
            j <= m,
            m == target@.len(),
            m <= digits@.len(),
            digits@ == dec_ascii(spec_guess_digest(proof_prime, proof_value) as nat),
            target@ == spec_pow_target(),
            forall|k: int| 0 <= k < j ==> digits@[k] == target@[k],
        decreases m - j,
    {
        if digits[j] != target[j] {
            proof {
                assert(digits@.take(m as int)[j as int] != target@[j as int]);
            }
            return false;
        }
        j = j + 1;
    }
    proof {
        assert(digits@.take(m as int) =~= target@);
    }
    true
}

/// Searches candidate proofs from zero upward and returns the first one
/// the difficulty predicate accepts; `None` only if no value in the whole
/// search space is accepted. The search is unbounded in spirit: it
/// performs no periodic check-in, and a caller wanting cancellation must
/// wrap it externally.
pub fn proof_of_work(last_proof: u64) -> (r: Option<u64>)
    ensures
        match r {
            Some(p) => spec_valid_proof(last_proof, p) && (forall|j: u64|
                j < p ==> !spec_valid_proof(last_proof, j)),
            None => forall|j: u64| !spec_valid_proof(last_proof, j),
        },
{
    let mut candidate: u64 = 0;
    loop
        invariant
            forall|j: u64| j < candidate ==> !spec_valid_proof(last_proof, j),
        decreases u64::MAX - candidate,
    {
        if valid_proof(last_proof, candidate) {
            return Some(candidate);
        }
        if candidate == u64::MAX {
            proof {
                assert forall|j: u64| !spec_valid_proof(last_proof, j) by {
                    if j < u64::MAX {
                        assert(!spec_valid_proof(last_proof, j));
                    } else {
                        assert(j == u64::MAX);
                    }
                }
            }
            return None;
        }
        candidate = candidate + 1;
    }
}

} // verus!
