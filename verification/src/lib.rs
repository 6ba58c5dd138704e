//! A minimal hash-linked ledger: an append-only chain of blocks, each bound
//! to its predecessor by a digest, a pending-transaction pool, and a
//! proof-of-work puzzle that gates the creation of new blocks.

pub mod block;
pub mod blockchain;
pub mod hashing;
pub mod transaction;
