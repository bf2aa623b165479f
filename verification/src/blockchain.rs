//! The consensus engine: proof of work, the account ledger and the chain.

pub mod account;
pub mod chain;
pub mod laws;
pub mod work;
