//! The chain: the forest of accepted blocks, its canonical tip, and the
//! rules by which a new block is accepted.

use vstd::prelude::*;
use crate::blockchain::account::apply_transfers;
use crate::blockchain::account::Account;
use crate::blockchain::account::AccountManager;
use crate::blockchain::work::hash_meets_difficulty;
use crate::blockchain::work::meets_difficulty;
use crate::crypto::hashing::same_digest;
use crate::error::Error;
use crate::primitives::block::Block;
use crate::primitives::block::BlockHeader;
use crate::primitives::digest_map::DigestMap;
use crate::primitives::transaction::Transaction;

verus! {

/// How far ahead of the clock a block's timestamp may lie, in seconds.
pub const FUTURE_DRIFT: u64 = 3600;

/// The difficulty that a new chain asks of every block.
pub const INITIAL_DIFFICULTY: u64 = 4;

/// Whether a block keeps every structural rule, given the digest of its
/// header, the header of the block that its `previous_hash` names (if the
/// forest holds one), the chain's difficulty and the time.
pub open spec fn block_rules_hold(
    block: Block,
    header_digest: Seq<u8>,
    parent: Option<BlockHeader>,
    difficulty: u64,
    now: u64,
) -> bool {
    &&& block.hash matches Some(hash)
    &&& hash@ == header_digest
    &&& block.header.miner_address is Some
    &&& block.header.difficulty == difficulty
    &&& meets_difficulty(block.header.difficulty, hash@)
    &&& parent matches Some(parent_header)
    &&& block.header.depth == parent_header.depth + 1
    &&& block.header.timestamp > parent_header.timestamp
    &&& block.header.timestamp <= now + FUTURE_DRIFT
}

/// The verdict on a block's structure: fine, or `InvalidBlock`.
pub open spec fn block_rules_verdict(
    block: Block,
    header_digest: Seq<u8>,
    parent: Option<BlockHeader>,
    difficulty: u64,
    now: u64,
) -> Result<(), Error> {
    if block_rules_hold(block, header_digest, parent, difficulty, now) {
        Ok(())
    } else {
        Err(Error::InvalidBlock)
    }
}

/// Checks a block's structure against the digest of its header, its
/// parent's header, the chain's difficulty and the time.
pub fn check_block(
    block: &Block,
    header_digest: &[u8; 32],
    parent: Option<BlockHeader>,
    difficulty: u64,
    now: u64,
) -> (verdict: Result<(), Error>)
    ensures
        verdict == block_rules_verdict(*block, header_digest@, parent, difficulty, now),
{
    let hash = match &block.hash {
        Some(hash) => hash,
        None => {
            return Err(Error::InvalidBlock);
        },
    };
    if !same_digest(hash, header_digest) {
        return Err(Error::InvalidBlock);
    }
    if block.header.miner_address.is_none() {
        return Err(Error::InvalidBlock);
    }
    if block.header.difficulty != difficulty {
        return Err(Error::InvalidBlock);
    }
    if !hash_meets_difficulty(block.header.difficulty, hash) {
        return Err(Error::InvalidBlock);
    }
    let parent_header = match parent {
        Some(parent_header) => parent_header,
        None => {
            return Err(Error::InvalidBlock);
        },
    };
    if parent_header.depth == u64::MAX || block.header.depth != parent_header.depth + 1 {
        return Err(Error::InvalidBlock);
    }
    if block.header.timestamp <= parent_header.timestamp {
        return Err(Error::InvalidBlock);
    }
    if now <= u64::MAX - FUTURE_DRIFT && block.header.timestamp > now + FUTURE_DRIFT {
        return Err(Error::InvalidBlock);
    }
    Ok(())
}

/// The verdict on one transaction, given the digest of its header, whether
/// it carries a signature of its sender that verifies over its hash, and the
/// sender's account. The checks come in this order: signature, hash,
/// account, balance, nonce.
pub open spec fn transaction_rules_verdict(
    tx: Transaction,
    header_digest: Seq<u8>,
    signed: bool,
    account: Option<Account>,
) -> Result<(), Error> {
    if !signed || tx.hash@ != header_digest {
        Err(Error::InvalidTransaction)
    } else {
        match account {
            None => Err(Error::UnknownAccount),
            Some(account) => {
                if account.balance < tx.header.amount || tx.header.nonce != account.nonce {
                    Err(Error::InvalidTransaction)
                } else {
                    Ok(())
                }
            },
        }
    }
}

/// Checks one transaction against the digest of its header, the outcome of
/// its signature check and the sender's account.
pub fn check_transaction(
    tx: &Transaction,
    header_digest: &[u8; 32],
    signed: bool,
    account: Option<Account>,
) -> (verdict: Result<(), Error>)
    ensures
        verdict == transaction_rules_verdict(*tx, header_digest@, signed, account),
{
    if !signed {
        return Err(Error::InvalidTransaction);
    }
    if !same_digest(&tx.hash, header_digest) {
        return Err(Error::InvalidTransaction);
    }
    let account = match account {
        Some(account) => account,
        None => {
            return Err(Error::UnknownAccount);
        },
    };
    if account.balance < tx.header.amount {
        return Err(Error::InvalidTransaction);
    }
    if tx.header.nonce != account.nonce {
        return Err(Error::InvalidTransaction);
    }
    Ok(())
}

/// What `sender` sends in all of `txs` together.
pub open spec fn total_sent(txs: Seq<Transaction>, sender: Seq<u8>) -> nat
    decreases txs.len(),
{
    if txs.len() == 0 {
        0
    } else {
        total_sent(txs.drop_last(), sender) + if txs.last().header.sender@ == sender {
            txs.last().header.amount as nat
        } else {
            0
        }
    }
}

/// Adds up what `sender` sends in all of `txs` together.
pub fn sum_sent(txs: &Vec<Transaction>, sender: &[u8; 32]) -> (total: u128)
    ensures
        total == total_sent(txs@, sender@),
{
    let mut total: u128 = 0;
    let mut i: usize = 0;
    while i < txs.len()
        invariant
            i <= txs@.len(),
            total == total_sent(txs@.take(i as int), sender@),
            total <= i * 0xffff_ffff_ffff_ffff,
        decreases txs@.len() - i,
    {
        assert(txs@.take(i + 1).drop_last() =~= txs@.take(i as int));
        if same_digest(&txs[i].header.sender, sender) {
            total = total + txs[i].header.amount as u128;
        }
        i += 1;
    }
    assert(txs@.take(i as int) =~= txs@);
    total
}

/// Reads the clock with `std::time::SystemTime::elapsed` on `UNIX_EPOCH` and
/// hands back the whole seconds, or `None` where the clock stands before the
/// epoch. Trusted: nothing is claimed of the value.
#[verifier::external_body]
fn seconds_since_epoch() -> (seconds: Option<u64>) {
    match std::time::UNIX_EPOCH.elapsed() {
        Ok(elapsed) => Some(elapsed.as_secs()),
        Err(_) => None,
    }
}

/// The time by which timestamps are judged: the clock's seconds since the
/// epoch, and 0 for a clock that stands before it.
pub fn current_time() -> (now: u64) {
    let reading: Option<u64> = seconds_since_epoch();
    let now: u64 = time_of_reading(reading);
    now
}

/// The time that a reading of the clock stands for: its seconds, and 0 for a
/// clock that stands before the epoch.
pub fn time_of_reading(reading: Option<u64>) -> (now: u64)
    ensures
        now == match reading {
            Some(seconds) => seconds,
            None => 0,
        },
{
    match reading {
        Some(seconds) => seconds,
        None => 0,
    }
}

/// What a chain is, apart from how it is stored.
pub ghost struct ChainView {
    /// Every accepted block, under its hash.
    pub blocks: Map<Seq<u8>, Block>,
    /// Depth of the canonical tip.
    pub depth: u64,
    /// Hash of the canonical tip.
    pub deepest_hash: Seq<u8>,
    /// The difficulty asked of the next block.
    pub difficulty: u64,
    /// The ledger.
    pub accounts: Map<Seq<u8>, Account>,
}

impl ChainView {
    /// What holds of the block stored under `hash`: it is stored under its
    /// own hash, which is the digest of its header; it is no deeper than the
    /// tip; and unless it is at depth 1 its parent is in the forest, one
    /// level up and older.
    pub open spec fn entry_ok(self, hash: Seq<u8>) -> bool {
        let block = self.blocks[hash];
        &&& block.hash matches Some(own)
        &&& own@ == hash
        &&& block.spec_hash_intact()
        &&& 1 <= block.header.depth <= self.depth
        &&& block.header.depth > 1 ==> {
            let parent = block.header.previous_hash@;
            &&& self.blocks.contains_key(parent)
            &&& self.blocks[parent].header.depth + 1 == block.header.depth
            &&& self.blocks[parent].header.timestamp < block.header.timestamp
        }
    }

    /// The chain's invariant: the forest is finite, the tip is in it at the
    /// recorded depth, and `entry_ok` holds of every block.
    pub open spec fn inv(self) -> bool {
        &&& self.blocks.dom().finite()
        &&& self.blocks.contains_key(self.deepest_hash)
        &&& self.blocks[self.deepest_hash].header.depth == self.depth
        &&& forall|hash: Seq<u8>| self.blocks.contains_key(hash) ==> #[trigger] self.entry_ok(hash)
    }

    /// The header of the block that `block` names as its parent, if the
    /// forest holds it.
    pub open spec fn parent_of(self, block: Block) -> Option<BlockHeader> {
        if self.blocks.contains_key(block.header.previous_hash@) {
            Some(self.blocks[block.header.previous_hash@].header)
        } else {
            None
        }
    }

    /// The verdict on the structure of `block` at time `now`.
    pub open spec fn block_verdict(self, block: Block, now: u64) -> Result<(), Error> {
        block_rules_verdict(
            block,
            block.header.spec_hash(),
            self.parent_of(block),
            self.difficulty,
            now,
        )
    }
}

impl ChainView {
    /// The sender's account, if the ledger has one.
    pub open spec fn account_of(self, address: Seq<u8>) -> Option<Account> {
        if self.accounts.contains_key(address) {
            Some(self.accounts[address])
        } else {
            None
        }
    }

    /// The verdict on one transaction against the ledger.
    pub open spec fn transaction_verdict(self, tx: Transaction) -> Result<(), Error> {
        transaction_rules_verdict(
            tx,
            tx.header.spec_hash(),
            tx.spec_signed(),
            self.account_of(tx.header.sender@),
        )
    }

    /// The verdict on the `i`-th of the transactions `txs` of one block: its
    /// sender has an account, all that the sender sends in the block is
    /// covered by the balance, and the transaction itself checks out.
    pub open spec fn member_verdict(self, txs: Seq<Transaction>, i: int) -> Result<(), Error> {
        let sender = txs[i].header.sender@;
        if !self.accounts.contains_key(sender) {
            Err(Error::UnknownAccount)
        } else if total_sent(txs, sender) > self.accounts[sender].balance {
            Err(Error::InvalidTransactionSet)
        } else {
            self.transaction_verdict(txs[i])
        }
    }

    /// The verdict on the first `n` of the transactions `txs` of one block:
    /// the first fault among them, in the block's order.
    pub open spec fn members_verdict(self, txs: Seq<Transaction>, n: int) -> Result<(), Error>
        decreases n,
    {
        if n <= 0 {
            Ok(())
        } else {
            match self.members_verdict(txs, n - 1) {
                Ok(_) => self.member_verdict(txs, n - 1),
                Err(fault) => Err(fault),
            }
        }
    }

    /// The verdict on the transactions of one block.
    pub open spec fn transaction_set_verdict(self, txs: Seq<Transaction>) -> Result<(), Error> {
        self.members_verdict(txs, txs.len() as int)
    }

    /// The verdict of verification: the block's structure first, then its
    /// transactions.
    pub open spec fn verification_verdict(self, block: Block, now: u64) -> Result<(), Error> {
        match self.block_verdict(block, now) {
            Ok(_) => self.transaction_set_verdict(block.transactions@),
            Err(fault) => Err(fault),
        }
    }

    /// A fault among the first `n` stays the verdict on any longer prefix.
    pub proof fn lemma_fault_stays(self, txs: Seq<Transaction>, n: int, m: int)
        requires
            0 <= n <= m,
            self.members_verdict(txs, n) is Err,
        ensures
            self.members_verdict(txs, m) == self.members_verdict(txs, n),
        decreases m - n,
    {
        if n < m {
            self.lemma_fault_stays(txs, n, m - 1);
        }
    }

    /// The transactions of a block pass exactly when each of them does.
    pub proof fn lemma_set_passes_iff_members_pass(self, txs: Seq<Transaction>, n: int)
        requires
            0 <= n,
        ensures
            self.members_verdict(txs, n) is Ok <==> forall|i: int|
                0 <= i < n ==> #[trigger] self.member_verdict(txs, i) is Ok,
        decreases n,
    {
        if n > 0 {
            self.lemma_set_passes_iff_members_pass(txs, n - 1);
        }
    }
}

impl ChainView {
    /// Whether `block` can join the forest: it has a hash that is new to the
    /// forest and is the digest of its header, and its parent is in the
    /// forest, one level up and older.
    pub open spec fn extends(self, block: Block) -> bool {
        &&& block.hash matches Some(hash)
        &&& !self.blocks.contains_key(hash@)
        &&& block.spec_hash_intact()
        &&& self.parent_of(block) matches Some(parent)
        &&& block.header.depth == parent.depth + 1
        &&& block.header.timestamp > parent.timestamp
    }

    /// Whether the chain is a new one: it holds the genesis block alone, at
    /// depth 1, over the given accounts and with the given difficulty. The
    /// genesis block has a parent hash of zero bytes, depth 1, timestamp,
    /// difficulty and nonce 0, the zero address as its miner, and no
    /// transactions.
    pub open spec fn is_new(self, accounts: Map<Seq<u8>, Account>, difficulty: u64) -> bool {
        let genesis = self.blocks[self.deepest_hash];
        &&& self.depth == 1
        &&& self.difficulty == difficulty
        &&& self.accounts == accounts
        &&& self.blocks.dom() == set![self.deepest_hash]
        &&& genesis.hash matches Some(hash)
        &&& hash@ == self.deepest_hash
        &&& genesis.spec_hash_intact()
        &&& genesis.transactions@ == Seq::<Transaction>::empty()
        &&& genesis.header.previous_hash@ == Seq::new(32, |i: int| 0u8)
        &&& genesis.header.depth == 1
        &&& genesis.header.timestamp == 0
        &&& genesis.header.difficulty == 0
        &&& genesis.header.nonce == 0
        &&& genesis.header.miner_address matches Some(miner)
        &&& miner@ == Seq::new(32, |i: int| 0u8)
    }

    /// Whether the forest already has a block under the hash of `block`.
    pub open spec fn holds(self, block: Block) -> bool {
        block.hash matches Some(hash) && self.blocks.contains_key(hash@)
    }

    /// The chain after `block` was committed: the ledger has carried out
    /// the block's transfers, the forest holds the block under its hash, and
    /// the block is the tip if and only if it is deeper than the tip was.
    pub open spec fn settled(self, block: Block) -> ChainView {
        let hash = block.hash->0@;
        let deeper = block.header.depth > self.depth;
        ChainView {
            blocks: self.blocks.insert(hash, block),
            depth: if deeper {
                block.header.depth
            } else {
                self.depth
            },
            deepest_hash: if deeper {
                hash
            } else {
                self.deepest_hash
            },
            difficulty: self.difficulty,
            accounts: apply_transfers(self.accounts, block.transactions@),
        }
    }

    /// The chain after `block` was submitted at time `now`: a block that
    /// passes verification and whose hash is new to the forest is
    /// committed; any other leaves the chain as it was.
    pub open spec fn step(self, block: Block, now: u64) -> ChainView {
        if self.verification_verdict(block, now) is Ok && !self.holds(block) {
            self.settled(block)
        } else {
            self
        }
    }

    /// The chain after a sequence of submissions, each a block and the time
    /// at which it came in.
    pub open spec fn run(self, submissions: Seq<(Block, u64)>) -> ChainView
        decreases submissions.len(),
    {
        if submissions.len() == 0 {
            self
        } else {
            self.run(submissions.drop_last()).step(submissions.last().0, submissions.last().1)
        }
    }

    /// A block that passes verification and whose hash is new to the forest
    /// can join it.
    pub proof fn lemma_verified_extends(self, block: Block, now: u64)
        requires
            self.verification_verdict(block, now) is Ok,
            !self.holds(block),
        ensures
            self.extends(block),
    {
    }

    /// Committing a block that can join the forest keeps the invariant,
    /// keeps every block that was there, and does not lower the tip.
    pub proof fn lemma_settled(self, block: Block)
        requires
            self.inv(),
            self.extends(block),
        ensures
            self.settled(block).inv(),
            self.settled(block).depth >= self.depth,
            forall|hash: Seq<u8>| #[trigger]
                self.blocks.contains_key(hash) ==> self.settled(block).blocks.contains_key(hash)
                    && self.settled(block).blocks[hash] == self.blocks[hash],
    {
        let next = self.settled(block);
        let new_hash = block.hash->0@;
        assert forall|hash: Seq<u8>| next.blocks.contains_key(hash) implies #[trigger] next.entry_ok(
            hash,
        ) by {
            if hash != new_hash {
                assert(self.entry_ok(hash));
            }
        }
    }
}

/// The state of the blockchain: the forest of blocks, the canonical tip, the
/// difficulty and the ledger.
#[derive(Clone, Debug)]
pub struct Chain {
    blocks: DigestMap<Block>,
    depth: u64,
    deepest_hash: [u8; 32],
    difficulty: u64,
    account_manager: AccountManager,
}

impl View for Chain {
    type V = ChainView;

    closed spec fn view(&self) -> ChainView {
        ChainView {
            blocks: self.blocks@,
            depth: self.depth,
            deepest_hash: self.deepest_hash@,
            difficulty: self.difficulty,
            accounts: self.account_manager@,
        }
    }
}

impl Chain {
    /// The storage invariant.
    pub closed spec fn stored_well(&self) -> bool {
        &&& self.blocks.wf()
        &&& self.account_manager.wf()
    }

    /// A chain is well formed when its storage is and its invariant holds.
    pub open spec fn wf(&self) -> bool {
        &&& self.stored_well()
        &&& self@.inv()
    }

    /// The hashes of the blocks, in the order in which `get_block_headers`
    /// lists them: each hash of the forest once.
    pub closed spec fn block_order(&self) -> Seq<Seq<u8>> {
        self.blocks.order()
    }

    /// `block_order` lists every hash of the forest exactly once.
    pub proof fn lemma_block_order(&self)
        requires
            self.wf(),
        ensures
            self.block_order().no_duplicates(),
            self.block_order().to_set() == self@.blocks.dom(),
            self.block_order().len() == self@.blocks.dom().len(),
    {
        self.blocks.lemma_order();
    }

    /// A chain that holds the genesis block alone, over the given ledger and
    /// with the given difficulty for every block to come.
    pub fn new_with_difficulty(ledger: AccountManager, difficulty: u64) -> (chain: Self)
        requires
            ledger.wf(),
        ensures
            chain.wf(),
            chain@.is_new(ledger@, difficulty),
    {
        let zero: [u8; 32] = [0u8;32];
        assert(zero@ =~= Seq::new(32, |i: int| 0u8));
        let genesis = Block::new(zero, 1, 0, Vec::new(), 0, Some(zero), 0);
        let hash: [u8; 32] = match &genesis.hash {
            Some(hash) => *hash,
            None => zero,
        };
        let mut blocks: DigestMap<Block> = DigestMap::new();
        blocks.insert(hash, genesis);
        let chain = Chain { blocks, depth: 1, deepest_hash: hash, difficulty, account_manager: ledger };
        proof {
            assert(chain@.blocks.dom() =~= set![chain@.deepest_hash]);
            assert forall|h: Seq<u8>| chain@.blocks.contains_key(h) implies #[trigger] chain@.entry_ok(
                h,
            ) by {
                assert(h == hash@);
            }
        }
        chain
    }

    /// A chain that holds the genesis block alone, over the given ledger,
    /// with the initial difficulty.
    pub fn new_with_ledger(ledger: AccountManager) -> (chain: Self)
        requires
            ledger.wf(),
        ensures
            chain.wf(),
            chain@.is_new(ledger@, INITIAL_DIFFICULTY),
    {
        Chain::new_with_difficulty(ledger, INITIAL_DIFFICULTY)
    }

    /// A chain that holds the genesis block alone, over an empty ledger,
    /// with the initial difficulty.
    pub fn new_with_genesis() -> (chain: Self)
        ensures
            chain.wf(),
            chain@.is_new(Map::<Seq<u8>, Account>::empty(), INITIAL_DIFFICULTY),
    {
        Chain::new_with_ledger(AccountManager::new())
    }

    /// Depth of the canonical tip.
    pub fn depth(&self) -> (depth: u64)
        ensures
            depth == self@.depth,
    {
        self.depth
    }

    /// The difficulty asked of the next block.
    pub fn difficulty(&self) -> (difficulty: u64)
        ensures
            difficulty == self@.difficulty,
    {
        self.difficulty
    }

    /// The ledger's state of the account of `address`, if it has one.
    pub fn get_account(&self, address: &[u8; 32]) -> (account: Option<Account>)
        requires
            self.wf(),
        ensures
            account == if self@.accounts.contains_key(address@) {
                Some(self@.accounts[address@])
            } else {
                None
            },
    {
        self.account_manager.get_account(address)
    }

    /// Whether `hash` starts with at least `difficulty` zero bits.
    pub fn is_valid_hash(&self, difficulty: u64, hash: &[u8; 32]) -> (ok: bool)
        ensures
            ok == meets_difficulty(difficulty, hash@),
    {
        hash_meets_difficulty(difficulty, hash)
    }

    /// The canonical tip: the block stored under the deepest hash.
    pub fn get_top_block(&self) -> (top: Option<&Block>)
        requires
            self.wf(),
        ensures
            top matches Some(block) && *block == self@.blocks[self@.deepest_hash],
            top matches Some(block) && block.header.depth == self@.depth,
            top matches Some(block) && (block.hash matches Some(hash) && hash@
                == self@.deepest_hash),
    {
        assert(self@.entry_ok(self@.deepest_hash));
        self.blocks.get(&self.deepest_hash)
    }

    /// The block stored under `hash`, if the forest holds one.
    pub fn get_block(&self, hash: &[u8; 32]) -> (found: Option<&Block>)
        requires
            self.wf(),
        ensures
            match found {
                Some(block) => {
                    &&& self@.blocks.contains_key(hash@)
                    &&& *block == self@.blocks[hash@]
                    &&& block.hash matches Some(own)
                    &&& own@ == hash@
                },
                None => !self@.blocks.contains_key(hash@),
            },
    {
        assert(self@.blocks.contains_key(hash@) ==> self@.entry_ok(hash@));
        self.blocks.get(hash)
    }

    /// The headers of all blocks of the forest, canonical or not, one for
    /// each hash of `block_order`.
    pub fn get_block_headers(&self) -> (headers: Vec<BlockHeader>)
        requires
            self.wf(),
        ensures
            headers@.len() == self.block_order().len(),
            forall|i: int|
                0 <= i < headers@.len() ==> #[trigger] headers@[i]
                    == self@.blocks[self.block_order()[i]].header,
    {
        let mut headers: Vec<BlockHeader> = Vec::new();
        let count = self.blocks.len();
        let mut i: usize = 0;
        while i < count
            invariant
                self.blocks.wf(),
                count == self.blocks.order().len(),
                i <= count,
                headers@.len() == i,
                forall|j: int|
                    0 <= j < i ==> #[trigger] headers@[j]
                        == self.blocks@[self.blocks.order()[j]].header,
            decreases count - i,
        {
            let block = self.blocks.value_at(i);
            headers.push(block.header);
            i += 1;
        }
        headers
    }

    /// Checks the structure of `block` as of time `now`: its hash, miner,
    /// difficulty and proof of work, its link to a known parent, and its
    /// timestamp.
    pub fn validate_block_at(&self, block: &Block, now: u64) -> (verdict: Result<(), Error>)
        requires
            self.wf(),
        ensures
            verdict == self@.block_verdict(*block, now),
    {
        let digest = block.header.hash();
        let parent = match self.blocks.get(&block.header.previous_hash) {
            Some(parent) => Some(parent.header),
            None => None,
        };
        check_block(block, &digest, parent, self.difficulty, now)
    }

    /// Checks one transaction against the ledger: the sender's signature
    /// over the hash, the hash itself, the sender's account, its balance and
    /// its nonce.
    pub fn validate_transaction(&self, transaction: &Transaction) -> (verdict: Result<(), Error>)
        requires
            self.wf(),
        ensures
            verdict == self@.transaction_verdict(*transaction),
    {
        let signed = transaction.is_signed();
        let digest = transaction.header.hash();
        let account = self.account_manager.get_account(&transaction.header.sender);
        check_transaction(transaction, &digest, signed, account)
    }

    /// Checks the `i`-th transaction of a block among the others.
    fn validate_member(&self, transactions: &Vec<Transaction>, i: usize) -> (verdict: Result<
        (),
        Error,
    >)
        requires
            self.wf(),
            i < transactions@.len(),
        ensures
            verdict == self@.member_verdict(transactions@, i as int),
    {
        let transaction = &transactions[i];
        let account = match self.account_manager.get_account(&transaction.header.sender) {
            Some(account) => account,
            None => {
                return Err(Error::UnknownAccount);
            },
        };
        let total = sum_sent(transactions, &transaction.header.sender);
        if total > account.balance as u128 {
            return Err(Error::InvalidTransactionSet);
        }
        self.validate_transaction(transaction)
    }

    /// Checks the transactions of one block: for each sender, that it has an
    /// account whose balance covers all that it sends in the block, and
    /// each transaction by itself.
    pub fn validate_transaction_set(&self, transactions: &Vec<Transaction>) -> (verdict: Result<
        (),
        Error,
    >)
        requires
            self.wf(),
        ensures
            verdict == self@.transaction_set_verdict(transactions@),
    {
        let mut i: usize = 0;
        while i < transactions.len()
            invariant
                self.wf(),
                i <= transactions@.len(),
                self@.members_verdict(transactions@, i as int) is Ok,
            decreases transactions@.len() - i,
        {
            match self.validate_member(transactions, i) {
                Ok(_) => {},
                Err(fault) => {
                    proof {
                        self@.lemma_fault_stays(
                            transactions@,
                            i + 1,
                            transactions@.len() as int,
                        );
                    }
                    return Err(fault);
                },
            }
            i += 1;
        }
        Ok(())
    }

    /// Verifies `block` as of time `now`: its structure and its transactions.
    pub fn verify_block_at(&self, block: &Block, now: u64) -> (ok: bool)
        requires
            self.wf(),
        ensures
            ok == (self@.verification_verdict(*block, now) is Ok),
    {
        self.validate_block_at(block, now).is_ok() && self.validate_transaction_set(
            &block.transactions,
        ).is_ok()
    }

    /// Checks the structure of `block` as of the clock's time.
    pub fn validate_block(&self, block: &Block) -> (verdict: Result<(), Error>)
        requires
            self.wf(),
        ensures
            exists|now: u64| verdict == #[trigger] self@.block_verdict(*block, now),
    {
        let now = current_time();
        self.validate_block_at(block, now)
    }

    /// Verifies `block` as of the clock's time: its structure and its
    /// transactions.
    pub fn verify_block(&self, block: &Block) -> (ok: bool)
        requires
            self.wf(),
        ensures
            exists|now: u64| ok == (#[trigger] self@.verification_verdict(*block, now) is Ok),
    {
        let now = current_time();
        self.verify_block_at(block, now)
    }

    /// Commits a block that can join the forest: the ledger carries out its
    /// transfers, then the forest takes the block, then the tip moves to it
    /// if it is deeper than the tip.
    fn settle_new_block(&mut self, block: Block)
        requires
            old(self).wf(),
            old(self)@.extends(block),
        ensures
            final(self).wf(),
            final(self)@ == old(self)@.settled(block),
    {
        let ghost before = self@;
        let hash: [u8; 32] = match &block.hash {
            Some(hash) => *hash,
            None => {
                return ;
            },
        };
        let depth = block.header.depth;
        self.account_manager.update_from_block(&block);
        self.blocks.insert(hash, block);
        if depth > self.depth {
            self.deepest_hash = hash;
            self.depth = depth;
        }
        proof {
            before.lemma_settled(block);
        }
    }

    /// Submits `block` as of time `now`. The outcome is that of
    /// verification: success exactly when the block's structure and its
    /// transactions check out, and the first fault found otherwise. A block
    /// that passes and whose hash is new to the forest is committed. A block
    /// that fails leaves the chain as it was, and so does one whose hash the
    /// forest already holds: what is stored is never replaced, and the
    /// ledger carries out a block's transfers once.
    pub fn add_new_block_at(&mut self, block: Block, now: u64) -> (outcome: Result<(), Error>)
        requires
            old(self).wf(),
        ensures
            final(self).wf(),
            outcome == old(self)@.verification_verdict(block, now),
            final(self)@ == old(self)@.step(block, now),
            final(self)@.depth >= old(self)@.depth,
            forall|hash: Seq<u8>| #[trigger]
                old(self)@.blocks.contains_key(hash) ==> final(self)@.blocks.contains_key(hash)
                    && final(self)@.blocks[hash] == old(self)@.blocks[hash],
    {
        match self.validate_block_at(&block, now) {
            Ok(_) => {},
            Err(fault) => {
                return Err(fault);
            },
        }
        match self.validate_transaction_set(&block.transactions) {
            Ok(_) => {},
            Err(fault) => {
                return Err(fault);
            },
        }
        let known = match &block.hash {
            Some(hash) => self.blocks.contains_key(hash),
            None => true,
        };
        if !known {
            proof {
                self@.lemma_settled(block);
            }
            self.settle_new_block(block);
        }
        Ok(())
    }

    /// Submits `block` as of the clock's time.
    pub fn add_new_block(&mut self, block: Block) -> (outcome: Result<(), Error>)
        requires
            old(self).wf(),
        ensures
            final(self).wf(),
            exists|now: u64|
                outcome == #[trigger] old(self)@.verification_verdict(block, now) && final(self)@
                    == old(self)@.step(block, now),
            final(self)@.depth >= old(self)@.depth,
            forall|hash: Seq<u8>| #[trigger]
                old(self)@.blocks.contains_key(hash) ==> final(self)@.blocks.contains_key(hash)
                    && final(self)@.blocks[hash] == old(self)@.blocks[hash],
    {
        let now = current_time();
        self.add_new_block_at(block, now)
    }
}

} // verus!
