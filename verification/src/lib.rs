//! A minimal proof-of-work blockchain core.
//!
//! The crate keeps a forest of accepted blocks, picks the deepest block as the
//! canonical tip, and accepts a new block only after its structure, its proof
//! of work, its link to a known parent and every transaction it carries have
//! been checked against the account ledger. A staging pool hands pending
//! transactions and mined blocks from producers to consumers.

pub mod blockchain;
pub mod crypto;
pub mod error;
pub mod primitives;
