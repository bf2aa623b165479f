//! What holds of the chain whatever is submitted to it.

use vstd::prelude::*;
use crate::blockchain::chain::total_sent;
use crate::blockchain::chain::ChainView;
use crate::error::Error;
use crate::primitives::block::Block;
use crate::primitives::transaction::Transaction;

verus! {

/// One submission keeps the invariant, keeps every block of the forest as it
/// is, and does not lower the tip.
pub proof fn lemma_step(chain: ChainView, block: Block, now: u64)
    requires
        chain.inv(),
    ensures
        chain.step(block, now).inv(),
        chain.step(block, now).depth >= chain.depth,
        forall|hash: Seq<u8>| #[trigger]
            chain.blocks.contains_key(hash) ==> chain.step(block, now).blocks.contains_key(hash)
                && chain.step(block, now).blocks[hash] == chain.blocks[hash],
{
    if chain.verification_verdict(block, now) is Ok && !chain.holds(block) {
        chain.lemma_verified_extends(block, now);
        chain.lemma_settled(block);
    }
}

/// The forest only grows: after any sequence of submissions, every hash
/// that was a key of the forest is still one, with the same block under it.
pub proof fn lemma_forest_append_only(chain: ChainView, submissions: Seq<(Block, u64)>)
    requires
        chain.inv(),
    ensures
        chain.run(submissions).inv(),
        forall|hash: Seq<u8>| #[trigger]
            chain.blocks.contains_key(hash) ==> chain.run(submissions).blocks.contains_key(hash)
                && chain.run(submissions).blocks[hash] == chain.blocks[hash],
    decreases submissions.len(),
{
    if submissions.len() > 0 {
        let earlier = chain.run(submissions.drop_last());
        lemma_forest_append_only(chain, submissions.drop_last());
        lemma_step(earlier, submissions.last().0, submissions.last().1);
        assert forall|hash: Seq<u8>| #[trigger] chain.blocks.contains_key(hash) implies chain.run(
            submissions,
        ).blocks.contains_key(hash) && chain.run(submissions).blocks[hash]
            == chain.blocks[hash] by {
            assert(earlier.blocks.contains_key(hash));
        }
    }
}

/// The tip only rises: after any sequence of submissions the depth is at
/// least what it was, and it is the depth of the block under the deepest
/// hash.
pub proof fn lemma_tip_monotone(chain: ChainView, submissions: Seq<(Block, u64)>)
    requires
        chain.inv(),
    ensures
        chain.run(submissions).depth >= chain.depth,
        chain.run(submissions).blocks.contains_key(chain.run(submissions).deepest_hash),
        chain.run(submissions).blocks[chain.run(submissions).deepest_hash].header.depth
            == chain.run(submissions).depth,
    decreases submissions.len(),
{
    lemma_forest_append_only(chain, submissions);
    if submissions.len() > 0 {
        let earlier = chain.run(submissions.drop_last());
        lemma_tip_monotone(chain, submissions.drop_last());
        lemma_forest_append_only(chain, submissions.drop_last());
        lemma_step(earlier, submissions.last().0, submissions.last().1);
    }
}

/// A block that is no deeper than the tip leaves the tip alone, whether it
/// passes verification or not.
pub proof fn lemma_tie_leaves_tip(chain: ChainView, block: Block, now: u64)
    requires
        block.header.depth <= chain.depth,
    ensures
        chain.step(block, now).deepest_hash == chain.deepest_hash,
        chain.step(block, now).depth == chain.depth,
{
}

/// A block whose hash the forest already holds changes nothing, whatever
/// the verdict on it: what is stored under the hash stays, the ledger is
/// not touched, and the tip stays.
pub proof fn lemma_known_block_changes_nothing(chain: ChainView, block: Block, now: u64)
    requires
        chain.holds(block),
    ensures
        chain.step(block, now) == chain,
{
}

/// A block that passes verification, is deeper than the tip and has a hash
/// that is new to the forest becomes the tip: the forest holds it under its
/// hash beside all that it held, and the depth is the block's.
pub proof fn lemma_deeper_block_becomes_tip(chain: ChainView, block: Block, now: u64)
    requires
        chain.inv(),
        chain.verification_verdict(block, now) is Ok,
        !chain.holds(block),
        block.header.depth > chain.depth,
    ensures
        chain.step(block, now).deepest_hash == block.hash->0@,
        chain.step(block, now).depth == block.header.depth,
        chain.step(block, now).blocks == chain.blocks.insert(block.hash->0@, block),
        chain.step(block, now).blocks.dom().len() == chain.blocks.dom().len() + 1,
        chain.step(block, now).inv(),
{
    chain.lemma_verified_extends(block, now);
    chain.lemma_settled(block);
    assert(chain.step(block, now).blocks.dom() =~= chain.blocks.dom().insert(block.hash->0@));
}

/// Of two blocks that pass verification and extend the same parent beyond
/// the tip, the one submitted first is the tip after both: the second, at
/// the same depth, does not replace it, and is in the forest as well. The
/// first block's hash is new to the forest.
pub proof fn lemma_first_of_tie_stays_tip(
    chain: ChainView,
    first: Block,
    first_time: u64,
    second: Block,
    second_time: u64,
)
    requires
        chain.inv(),
        first.header.previous_hash@ == second.header.previous_hash@,
        first.header.depth > chain.depth,
        !chain.holds(first),
        chain.verification_verdict(first, first_time) is Ok,
        chain.step(first, first_time).verification_verdict(second, second_time) is Ok,
    ensures
        second.header.depth == first.header.depth,
        chain.step(first, first_time).step(second, second_time).deepest_hash == first.hash->0@,
        chain.step(first, first_time).step(second, second_time).depth == first.header.depth,
        chain.step(first, first_time).step(second, second_time).blocks[first.hash->0@] == first,
        chain.step(first, first_time).step(second, second_time).blocks.contains_key(
            second.hash->0@,
        ),
{
    let middle = chain.step(first, first_time);
    chain.lemma_verified_extends(first, first_time);
    chain.lemma_settled(first);
    assert(middle.blocks.contains_key(first.hash->0@));
    if !middle.holds(second) {
        middle.lemma_verified_extends(second, second_time);
        middle.lemma_settled(second);
    }
}

/// What a sender sends in a block is at least what it sends in one of the
/// block's transactions.
pub proof fn lemma_total_covers_one(txs: Seq<Transaction>, i: int)
    requires
        0 <= i < txs.len(),
    ensures
        total_sent(txs, txs[i].header.sender@) >= txs[i].header.amount,
    decreases txs.len(),
{
    if i < txs.len() - 1 {
        lemma_total_covers_one(txs.drop_last(), i);
    }
}

/// What a sender sends in a block is at least what it sends in two of the
/// block's transactions together.
pub proof fn lemma_total_covers_two(txs: Seq<Transaction>, i: int, j: int)
    requires
        0 <= i < j < txs.len(),
        txs[i].header.sender@ == txs[j].header.sender@,
    ensures
        total_sent(txs, txs[i].header.sender@) >= txs[i].header.amount + txs[j].header.amount,
    decreases txs.len(),
{
    if j < txs.len() - 1 {
        lemma_total_covers_two(txs.drop_last(), i, j);
    } else {
        lemma_total_covers_one(txs.drop_last(), i);
    }
}

/// A block with a transaction that fails among the block's transactions is
/// rejected, and leaves the chain as it was.
pub proof fn lemma_faulty_member_rejected(chain: ChainView, block: Block, now: u64, i: int)
    requires
        0 <= i < block.transactions@.len(),
        chain.member_verdict(block.transactions@, i) is Err,
    ensures
        chain.transaction_set_verdict(block.transactions@) is Err,
        chain.verification_verdict(block, now) is Err,
        chain.step(block, now) == chain,
{
    chain.lemma_set_passes_iff_members_pass(block.transactions@, block.transactions@.len() as int);
}

/// Double spending is rejected: a block in which two transactions of one
/// sender together send more than the sender's balance is rejected,
/// whether or not the balance covers each of the two by itself.
pub proof fn lemma_double_spend_rejected(
    chain: ChainView,
    block: Block,
    now: u64,
    i: int,
    j: int,
)
    requires
        0 <= i < block.transactions@.len(),
        0 <= j < block.transactions@.len(),
        i != j,
        block.transactions@[i].header.sender@ == block.transactions@[j].header.sender@,
        chain.accounts.contains_key(block.transactions@[i].header.sender@),
        block.transactions@[i].header.amount + block.transactions@[j].header.amount
            > chain.accounts[block.transactions@[i].header.sender@].balance,
    ensures
        chain.transaction_set_verdict(block.transactions@) is Err,
        chain.verification_verdict(block, now) is Err,
        chain.step(block, now) == chain,
{
    if i < j {
        lemma_total_covers_two(block.transactions@, i, j);
    } else {
        lemma_total_covers_two(block.transactions@, j, i);
    }
    lemma_faulty_member_rejected(chain, block, now, i);
}

/// Replayed and skipped nonces are rejected: a transaction whose nonce is
/// not the nonce of its sender's account, be it lower or higher, fails, and
/// so does every block that carries it.
pub proof fn lemma_wrong_nonce_rejected(chain: ChainView, block: Block, now: u64, i: int)
    requires
        0 <= i < block.transactions@.len(),
        chain.accounts.contains_key(block.transactions@[i].header.sender@),
        block.transactions@[i].header.nonce
            != chain.accounts[block.transactions@[i].header.sender@].nonce,
    ensures
        chain.transaction_verdict(block.transactions@[i]) is Err,
        chain.verification_verdict(block, now) is Err,
        chain.step(block, now) == chain,
{
    lemma_faulty_member_rejected(chain, block, now, i);
}

/// A header that was changed after hashing is rejected: a transaction that
/// keeps the hash of another header fails, unless the changed header has the
/// very same digest.
pub proof fn lemma_tampered_header_rejected(chain: ChainView, genuine: Transaction, altered: Transaction)
    requires
        genuine.spec_hash_intact(),
        altered.hash == genuine.hash,
        altered.header != genuine.header,
        altered.header.spec_hash() != genuine.header.spec_hash(),
    ensures
        altered.header.spec_bytes() != genuine.header.spec_bytes(),
        chain.transaction_verdict(altered) == Err::<(), Error>(Error::InvalidTransaction),
{
    if altered.header.spec_bytes() == genuine.header.spec_bytes() {
        altered.header.lemma_bytes_injective(genuine.header);
    }
}

} // verus!
