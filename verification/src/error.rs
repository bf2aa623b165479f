//! Why a block, a transaction or a pool operation was turned down.

use vstd::prelude::*;

verus! {

/// The kinds of failure that the chain and the pool report.
#[derive(Clone, Copy, Debug, PartialEq, Eq, Structural)]
pub enum Error {
    /// The block breaks a rule on its hash, miner, difficulty, proof of work,
    /// parent link, depth or timestamp.
    InvalidBlock,
    /// Some sender's transactions in the block add up to more than the
    /// sender's balance.
    InvalidTransactionSet,
    /// A transaction's signature, hash, amount or nonce does not check out.
    InvalidTransaction,
    /// A transaction's sender has no account in the ledger.
    UnknownAccount,
    /// A pool channel was closed for good while a consumer waited on it.
    ChannelClosed,
}

} // verus!
