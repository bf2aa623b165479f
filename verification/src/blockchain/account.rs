//! The account ledger: a balance and a nonce for each address.

use vstd::prelude::*;
use crate::primitives::block::Block;
use crate::primitives::digest_map::DigestMap;
use crate::primitives::transaction::Transaction;
use crate::primitives::transaction::TransactionHeader;

verus! {

/// What the ledger keeps for one address.
#[derive(Clone, Copy, Debug, PartialEq, Eq)]
pub struct Account {
    /// Funds that the account can spend.
    pub balance: u64,
    /// The nonce that the account's next transaction has to carry.
    pub nonce: u64,
}

/// Whether `amount` can be added to what `address` holds without passing
/// the largest balance.
pub open spec fn can_credit(ledger: Map<Seq<u8>, Account>, address: Seq<u8>, amount: u64) -> bool {
    ledger.contains_key(address) ==> ledger[address].balance + amount <= u64::MAX
}

/// The ledger after `amount` was added to the balance of `address`. An
/// address without an account gets one, with nonce 0.
pub open spec fn credited(ledger: Map<Seq<u8>, Account>, address: Seq<u8>, amount: u64) -> Map<
    Seq<u8>,
    Account,
> {
    if ledger.contains_key(address) {
        ledger.insert(
            address,
            Account {
                balance: (ledger[address].balance + amount) as u64,
                nonce: ledger[address].nonce,
            },
        )
    } else {
        ledger.insert(address, Account { balance: amount, nonce: 0 })
    }
}

/// The ledger after `amount` was taken from `address` and its nonce moved on
/// by one.
pub open spec fn debited(ledger: Map<Seq<u8>, Account>, address: Seq<u8>, amount: u64) -> Map<
    Seq<u8>,
    Account,
> {
    ledger.insert(
        address,
        Account {
            balance: (ledger[address].balance - amount) as u64,
            nonce: (ledger[address].nonce + 1) as u64,
        },
    )
}

/// Whether a transfer can be carried out: the sender has an account that
/// covers the amount and whose nonce can still move on, and the receiver's
/// balance stays in range.
pub open spec fn transfer_applies(ledger: Map<Seq<u8>, Account>, tx: TransactionHeader) -> bool {
    &&& ledger.contains_key(tx.sender@)
    &&& ledger[tx.sender@].balance >= tx.amount
    &&& ledger[tx.sender@].nonce < u64::MAX
    &&& can_credit(debited(ledger, tx.sender@, tx.amount), tx.receiver@, tx.amount)
}

/// The ledger after one transfer: the sender is debited and its nonce moves
/// on, then the receiver is credited. A transfer that cannot be carried out
/// leaves the ledger as it is.
pub open spec fn apply_transfer(ledger: Map<Seq<u8>, Account>, tx: TransactionHeader) -> Map<
    Seq<u8>,
    Account,
> {
    if transfer_applies(ledger, tx) {
        credited(debited(ledger, tx.sender@, tx.amount), tx.receiver@, tx.amount)
    } else {
        ledger
    }
}

/// The ledger after the transfers of `txs`, carried out in order.
pub open spec fn apply_transfers(ledger: Map<Seq<u8>, Account>, txs: Seq<Transaction>) -> Map<
    Seq<u8>,
    Account,
>
    decreases txs.len(),
{
    if txs.len() == 0 {
        ledger
    } else {
        apply_transfer(apply_transfers(ledger, txs.drop_last()), txs.last().header)
    }
}

/// The ledger. It owns every account; readers get a copy of an account's
/// state, and only `deposit` and `update_from_block` change it.
#[derive(Clone, Debug)]
pub struct AccountManager {
    accounts: DigestMap<Account>,
}

impl View for AccountManager {
    type V = Map<Seq<u8>, Account>;

    closed spec fn view(&self) -> Map<Seq<u8>, Account> {
        self.accounts@
    }
}

impl AccountManager {
    /// The representation invariant.
    pub closed spec fn wf(&self) -> bool {
        self.accounts.wf()
    }

    /// A ledger without accounts.
    pub fn new() -> (ledger: Self)
        ensures
            ledger.wf(),
            ledger@ == Map::<Seq<u8>, Account>::empty(),
    {
        AccountManager { accounts: DigestMap::new() }
    }

    /// The state of the account of `address`, if it has one.
    pub fn get_account(&self, address: &[u8; 32]) -> (account: Option<Account>)
        requires
            self.wf(),
        ensures
            account == if self@.contains_key(address@) {
                Some(self@[address@])
            } else {
                None
            },
    {
        match self.accounts.get(address) {
            Some(account) => Some(*account),
            None => None,
        }
    }

    /// Adds `amount` to the balance of `address`, opening the account if
    /// there is none. Returns `false`, and changes nothing, where the
    /// balance would pass the largest one.
    pub fn deposit(&mut self, address: [u8; 32], amount: u64) -> (done: bool)
        requires
            old(self).wf(),
        ensures
            final(self).wf(),
            done == can_credit(old(self)@, address@, amount),
            final(self)@ == if done {
                credited(old(self)@, address@, amount)
            } else {
                old(self)@
            },
    {
        match self.get_account(&address) {
            Some(account) => {
                if amount > u64::MAX - account.balance {
                    return false;
                }
                self.accounts.insert(
                    address,
                    Account { balance: account.balance + amount, nonce: account.nonce },
                );
            },
            None => {
                self.accounts.insert(address, Account { balance: amount, nonce: 0 });
            },
        }
        true
    }

    /// Carries out one transfer, or leaves the ledger as it is where the
    /// transfer cannot be carried out.
    pub fn apply(&mut self, tx: &TransactionHeader) -> (done: bool)
        requires
            old(self).wf(),
        ensures
            final(self).wf(),
            done == transfer_applies(old(self)@, *tx),
            final(self)@ == apply_transfer(old(self)@, *tx),
    {
        let sender = match self.get_account(&tx.sender) {
            Some(account) => account,
            None => {
                return false;
            },
        };
        if sender.balance < tx.amount || sender.nonce == u64::MAX {
            return false;
        }
        let after = Account { balance: sender.balance - tx.amount, nonce: sender.nonce + 1 };
        let receiver = if crate::crypto::hashing::same_digest(&tx.sender, &tx.receiver) {
            Some(after)
        } else {
            self.get_account(&tx.receiver)
        };
        proof {
            let d = debited(self@, tx.sender@, tx.amount);
            assert(receiver == if d.contains_key(tx.receiver@) {
                Some(d[tx.receiver@])
            } else {
                None::<Account>
            });
        }
        let credit = match receiver {
            Some(account) => {
                if tx.amount > u64::MAX - account.balance {
                    return false;
                }
                Account { balance: account.balance + tx.amount, nonce: account.nonce }
            },
            None => Account { balance: tx.amount, nonce: 0 },
        };
        self.accounts.insert(tx.sender, after);
        self.accounts.insert(tx.receiver, credit);
        true
    }

    /// Carries out the transfers of a block's transactions in their order.
    pub fn update_from_block(&mut self, block: &Block)
        requires
            old(self).wf(),
        ensures
            final(self).wf(),
            final(self)@ == apply_transfers(old(self)@, block.transactions@),
    {
        let ghost before = self@;
        let mut i: usize = 0;
        while i < block.transactions.len()
            invariant
                i <= block.transactions@.len(),
                self.wf(),
                self@ == apply_transfers(before, block.transactions@.take(i as int)),
            decreases block.transactions@.len() - i,
        {
            let tx = &block.transactions[i];
            assert(block.transactions@.take(i + 1).drop_last() =~= block.transactions@.take(
                i as int,
            ));
            self.apply(&tx.header);
            i += 1;
        }
        assert(block.transactions@.take(i as int) =~= block.transactions@);
    }
}

} // verus!
