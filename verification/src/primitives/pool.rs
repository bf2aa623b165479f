//! The staging pool: two unbounded first-in, first-out channels, one for
//! pending transactions and one for mined blocks.

use vstd::prelude::*;
use crate::error::Error;
use crate::primitives::block::Block;
use crate::primitives::transaction::Transaction;

verus! {

/// The sending end of a `flume` channel.
#[verifier::external_type_specification]
#[verifier::external_body]
#[verifier::reject_recursive_types(T)]
pub struct ExSender<T>(flume::Sender<T>);

/// The receiving end of a `flume` channel.
#[verifier::external_type_specification]
#[verifier::external_body]
#[verifier::reject_recursive_types(T)]
pub struct ExReceiver<T>(flume::Receiver<T>);

/// What `flume` hands back, with the message, when every receiver is gone.
#[verifier::external_type_specification]
#[verifier::external_body]
#[verifier::reject_recursive_types(T)]
pub struct ExSendError<T>(flume::SendError<T>);

/// What `flume` reports when every sender is gone and the channel is empty.
#[verifier::external_type_specification]
#[verifier::external_body]
pub struct ExRecvError(flume::RecvError);

/// `flume::unbounded` makes a channel without a limit and hands out its two
/// ends. Trusted; nothing is claimed of them.
pub assume_specification<T>[ flume::unbounded::<T> ]() -> (ends: (
    flume::Sender<T>,
    flume::Receiver<T>,
));

/// `flume::Sender::send` puts a message into the channel, or hands it back
/// where every receiver is gone. Trusted; nothing is claimed of the outcome,
/// since the channel is shared with every other holder of its ends.
pub assume_specification<T>[ flume::Sender::<T>::send ](
    sender: &flume::Sender<T>,
    msg: T,
) -> (outcome: Result<(), flume::SendError<T>>);

/// `flume::Receiver::recv` waits for the next message of the channel, or
/// reports that every sender is gone. Trusted; nothing is claimed of the
/// outcome.
pub assume_specification<T>[ flume::Receiver::<T>::recv ](receiver: &flume::Receiver<T>) -> (outcome:
    Result<T, flume::RecvError>);

/// `flume::Receiver::len` counts the messages that wait in the channel at
/// the moment of the call. Trusted; nothing is claimed of the count.
pub assume_specification<T>[ flume::Receiver::<T>::len ](receiver: &flume::Receiver<T>) -> (count:
    usize);

/// `Clone` for `flume::Sender` makes one more sending end of the same
/// channel. Trusted; nothing is claimed of it.
pub assume_specification<T>[ <flume::Sender<T> as Clone>::clone ](sender: &flume::Sender<T>) -> (end:
    flume::Sender<T>);

/// `Clone` for `flume::Receiver` makes one more receiving end of the same
/// channel. Trusted; nothing is claimed of it.
pub assume_specification<T>[ <flume::Receiver<T> as Clone>::clone ](
    receiver: &flume::Receiver<T>,
) -> (end: flume::Receiver<T>);

/// What a consumer gets from a wait on a channel: the item, or
/// `ChannelClosed` where the channel was closed for good.
pub fn received<T>(outcome: Result<T, flume::RecvError>) -> (item: Result<T, Error>)
    ensures
        item == match outcome {
            Ok(item) => Ok::<T, Error>(item),
            Err(_) => Err::<T, Error>(Error::ChannelClosed),
        },
{
    match outcome {
        Ok(item) => Ok(item),
        Err(_) => Err(Error::ChannelClosed),
    }
}

/// The staging pool. It keeps both ends of each channel, so neither channel
/// closes while the pool, or a clone of it, is alive. Clones share the two
/// channels.
#[derive(Debug, Clone)]
pub struct MinerPool {
    transaction_receiver: flume::Receiver<Transaction>,
    transaction_sender: flume::Sender<Transaction>,
    block_sender: flume::Sender<Block>,
    block_receiver: flume::Receiver<Block>,
}

impl MinerPool {
    /// A pool with two empty channels.
    pub fn new() -> Self {
        let (transaction_sender, transaction_receiver) = flume::unbounded();
        let (block_sender, block_receiver) = flume::unbounded();
        MinerPool { transaction_receiver, transaction_sender, block_sender, block_receiver }
    }

    /// Puts a transaction at the back of the transaction channel, without
    /// waiting.
    pub fn add_transaction(&self, transaction: Transaction) {
        match self.transaction_sender.send(transaction) {
            Ok(_) => {},
            Err(_) => {},
        }
    }

    /// Waits for a transaction and takes it from the front of the
    /// transaction channel; no transaction where the channel was closed.
    pub fn pop_transaction(&self) -> Option<Transaction> {
        let outcome: Result<Transaction, flume::RecvError> =
            self.transaction_receiver.recv();
        let item: Option<Transaction> = delivered(outcome);
        item
    }

    /// Waits for a block and takes it from the front of the block channel;
    /// no block where the channel was closed.
    pub fn pop_block(&self) -> Option<Block> {
        let outcome: Result<Block, flume::RecvError> =
            self.block_receiver.recv();
        let item: Option<Block> = delivered(outcome);
        item
    }

    /// Puts a mined block at the back of the block channel, without waiting.
    pub fn add_block(&self, block: Block) {
        match self.block_sender.send(block) {
            Ok(_) => {},
            Err(_) => {},
        }
    }

    /// Number of blocks that wait in the block channel at the moment of the
    /// call.
    pub fn block_count(&self) -> usize {
        self.block_receiver.len()
    }
}

/// What a pop hands out for the outcome of a wait on a channel: the item,
/// and nothing where the channel was closed for good.
pub fn delivered<T>(outcome: Result<T, flume::RecvError>) -> (item: Option<T>)
    ensures
        item == match outcome {
            Ok(item) => Some(item),
            Err(_) => None::<T>,
        },
{
    match received(outcome) {
        Ok(item) => Some(item),
        Err(_) => None,
    }
}

} // verus!
