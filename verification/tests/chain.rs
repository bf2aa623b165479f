use ed25519_dalek::Signer;
use ed25519_dalek::SigningKey;
use powchain::blockchain::account::Account;
use powchain::blockchain::account::AccountManager;
use powchain::blockchain::chain::check_block;
use powchain::blockchain::chain::check_transaction;
use powchain::blockchain::chain::current_time;
use powchain::blockchain::chain::sum_sent;
use powchain::blockchain::chain::time_of_reading;
use powchain::blockchain::chain::Chain;
use powchain::blockchain::work::hash_meets_difficulty;
use powchain::error::Error;
use powchain::primitives::block::Block;
use powchain::primitives::block::BlockHeader;
use powchain::primitives::transaction::Transaction;

const MINER: [u8; 32] = [5u8; 32];
const BOB: [u8; 32] = [9u8; 32];
const NOW: u64 = 1_700_000_000;

fn key(seed: u8) -> SigningKey {
    SigningKey::from_bytes(&[seed; 32])
}

fn address(key: &SigningKey) -> [u8; 32] {
    key.verifying_key().to_bytes()
}

fn signed(key: &SigningKey, receiver: [u8; 32], amount: u64, nonce: u64) -> Transaction {
    let mut tx = Transaction::new(address(key), receiver, amount, nonce, NOW);
    tx.signature = Some(key.sign(&tx.hash).to_bytes());
    tx
}

fn mine_with(
    previous_hash: [u8; 32],
    depth: u64,
    timestamp: u64,
    transactions: Vec<Transaction>,
    difficulty: u64,
    miner: Option<[u8; 32]>,
    first_nonce: u64,
) -> Block {
    let mut nonce: u64 = first_nonce;
    loop {
        let block =
            Block::new(previous_hash, depth, timestamp, transactions.clone(), difficulty, miner, nonce);
        if hash_meets_difficulty(difficulty, &block.hash.unwrap()) {
            return block;
        }
        nonce += 1;
    }
}

fn mine(previous_hash: [u8; 32], depth: u64, timestamp: u64, transactions: Vec<Transaction>) -> Block {
    mine_with(previous_hash, depth, timestamp, transactions, 4, Some(MINER), 0)
}

fn funded_chain(accounts: &[([u8; 32], u64)]) -> Chain {
    let mut ledger = AccountManager::new();
    for (address, amount) in accounts {
        assert!(ledger.deposit(*address, *amount));
    }
    Chain::new_with_ledger(ledger)
}

fn tip_hash(chain: &Chain) -> [u8; 32] {
    chain.get_top_block().unwrap().hash.unwrap()
}

#[test]
fn genesis_chain() {
    let chain = Chain::new_with_genesis();
    assert_eq!(chain.depth(), 1);
    assert_eq!(chain.difficulty(), 4);
    let top = chain.get_top_block().unwrap();
    assert_eq!(top.header.previous_hash, [0u8; 32]);
    assert_eq!(top.header.depth, 1);
    assert_eq!(top.header.timestamp, 0);
    assert_eq!(top.header.miner_address, Some([0u8; 32]));
    assert!(top.transactions.is_empty());
    assert_eq!(top.hash, Some(top.header.hash()));
    assert_eq!(chain.get_block(&top.hash.unwrap()), Some(top));
    assert_eq!(chain.get_block(&[0u8; 32]), None);
    assert_eq!(chain.get_block_headers(), vec![top.header]);
    assert_eq!(chain.get_account(&[0u8; 32]), None);
}

#[test]
fn genesis_is_the_same_every_time() {
    let a = Chain::new_with_genesis();
    let b = funded_chain(&[(BOB, 5)]);
    assert_eq!(a.get_top_block(), b.get_top_block());
    assert_eq!(b.get_account(&BOB), Some(Account { balance: 5, nonce: 0 }));
}

#[test]
fn linear_extension_becomes_tip() {
    let alice = key(7);
    let mut chain = funded_chain(&[(address(&alice), 100)]);
    let genesis = tip_hash(&chain);
    let block = mine(genesis, 2, NOW, vec![signed(&alice, BOB, 40, 0)]);
    let hash = block.hash.unwrap();
    assert!(chain.verify_block_at(&block, NOW));
    assert_eq!(chain.add_new_block_at(block.clone(), NOW), Ok(()));
    assert_eq!(chain.depth(), 2);
    assert_eq!(chain.get_top_block(), Some(&block));
    assert_eq!(chain.get_block(&hash), Some(&block));
    assert_eq!(chain.get_account(&address(&alice)), Some(Account { balance: 60, nonce: 1 }));
    assert_eq!(chain.get_account(&BOB), Some(Account { balance: 40, nonce: 0 }));
    assert_eq!(chain.get_block_headers().len(), 2);
    assert!(chain.get_block_headers().contains(&block.header));
}

#[test]
fn linear_extension_by_the_clock() {
    let alice = key(7);
    let mut chain = funded_chain(&[(address(&alice), 100)]);
    let genesis = tip_hash(&chain);
    let block = mine(genesis, 2, current_time(), vec![signed(&alice, BOB, 100, 0)]);
    assert!(chain.validate_block(&block).is_ok());
    assert!(chain.verify_block(&block));
    assert_eq!(chain.add_new_block(block.clone()), Ok(()));
    assert_eq!(chain.depth(), 2);
    assert_eq!(chain.get_top_block(), Some(&block));
    assert_eq!(chain.get_account(&address(&alice)), Some(Account { balance: 0, nonce: 1 }));
}

#[test]
fn time_of_a_reading() {
    assert_eq!(time_of_reading(Some(1_700_000_000)), 1_700_000_000);
    assert_eq!(time_of_reading(Some(0)), 0);
    assert_eq!(time_of_reading(Some(u64::MAX)), u64::MAX);
    assert_eq!(time_of_reading(None), 0);
}

#[test]
fn clock_reads_a_time_after_2020() {
    assert!(current_time() > 1_577_836_800);
}

#[test]
fn future_timestamp_is_rejected() {
    let mut chain = Chain::new_with_genesis();
    let genesis = tip_hash(&chain);
    let block = mine(genesis, 2, current_time() + 7200, Vec::new());
    assert_eq!(chain.validate_block(&block), Err(Error::InvalidBlock));
    assert!(!chain.verify_block(&block));
    assert_eq!(chain.add_new_block(block.clone()), Err(Error::InvalidBlock));
    assert_eq!(chain.depth(), 1);
    assert_eq!(tip_hash(&chain), genesis);
    assert_eq!(chain.get_block(&block.hash.unwrap()), None);
}

#[test]
fn future_drift_is_one_hour() {
    let mut chain = Chain::new_with_genesis();
    let genesis = tip_hash(&chain);
    let late = mine(genesis, 2, NOW + 3601, Vec::new());
    assert_eq!(chain.validate_block_at(&late, NOW), Err(Error::InvalidBlock));
    assert_eq!(chain.add_new_block_at(late.clone(), NOW), Err(Error::InvalidBlock));
    assert_eq!(chain.add_new_block_at(late.clone(), NOW + 1), Ok(()));
    let edge = mine(genesis, 2, NOW + 3600, Vec::new());
    assert_eq!(chain.add_new_block_at(edge, NOW), Ok(()));
    let far = mine(genesis, 2, u64::MAX, Vec::new());
    assert_eq!(chain.validate_block_at(&far, u64::MAX - 3600), Ok(()));
    assert_eq!(chain.validate_block_at(&far, u64::MAX), Ok(()));
    assert_eq!(chain.validate_block_at(&far, u64::MAX - 3601), Err(Error::InvalidBlock));
}

#[test]
fn each_structural_rule_is_enforced() {
    let chain = Chain::new_with_genesis();
    let genesis = tip_hash(&chain);
    let good = mine(genesis, 2, NOW, Vec::new());
    assert_eq!(chain.validate_block_at(&good, NOW), Ok(()));

    let mut no_hash = good.clone();
    no_hash.hash = None;
    assert_eq!(chain.validate_block_at(&no_hash, NOW), Err(Error::InvalidBlock));

    let mut wrong_hash = good.clone();
    wrong_hash.hash = Some([0u8; 32]);
    assert_eq!(chain.validate_block_at(&wrong_hash, NOW), Err(Error::InvalidBlock));

    let mut altered = good.clone();
    altered.header.timestamp = NOW + 1;
    assert_eq!(chain.validate_block_at(&altered, NOW), Err(Error::InvalidBlock));

    let no_miner = mine_with(genesis, 2, NOW, Vec::new(), 4, None, 0);
    assert_eq!(chain.validate_block_at(&no_miner, NOW), Err(Error::InvalidBlock));

    let easier = mine_with(genesis, 2, NOW, Vec::new(), 3, Some(MINER), 0);
    assert_eq!(chain.validate_block_at(&easier, NOW), Err(Error::InvalidBlock));

    let harder = mine_with(genesis, 2, NOW, Vec::new(), 5, Some(MINER), 0);
    assert_eq!(chain.validate_block_at(&harder, NOW), Err(Error::InvalidBlock));

    let mut nonce: u64 = 0;
    let weak = loop {
        let block = Block::new(genesis, 2, NOW, Vec::new(), 4, Some(MINER), nonce);
        if !hash_meets_difficulty(4, &block.hash.unwrap()) {
            break block;
        }
        nonce += 1;
    };
    assert_eq!(chain.validate_block_at(&weak, NOW), Err(Error::InvalidBlock));

    let orphan = mine([1u8; 32], 2, NOW, Vec::new());
    assert_eq!(chain.validate_block_at(&orphan, NOW), Err(Error::InvalidBlock));

    let skipped = mine(genesis, 3, NOW, Vec::new());
    assert_eq!(chain.validate_block_at(&skipped, NOW), Err(Error::InvalidBlock));

    let same_depth = mine(genesis, 1, NOW, Vec::new());
    assert_eq!(chain.validate_block_at(&same_depth, NOW), Err(Error::InvalidBlock));

    let not_later = mine(genesis, 2, 0, Vec::new());
    assert_eq!(chain.validate_block_at(&not_later, NOW), Err(Error::InvalidBlock));

    let just_later = mine(genesis, 2, 1, Vec::new());
    assert_eq!(chain.validate_block_at(&just_later, NOW), Ok(()));
}

#[test]
fn check_block_on_plain_values() {
    let parent = BlockHeader {
        previous_hash: [0u8; 32],
        depth: 7,
        timestamp: 100,
        difficulty: 0,
        nonce: 0,
        miner_address: None,
    };
    let mut block = Block::new([1u8; 32], 8, 101, Vec::new(), 0, Some(MINER), 0);
    let digest: [u8; 32] = [0x0f; 32];
    block.hash = Some(digest);
    block.header.difficulty = 4;
    assert_eq!(check_block(&block, &digest, Some(parent), 4, 0), Ok(()));
    assert_eq!(check_block(&block, &[0x0e; 32], Some(parent), 4, 0), Err(Error::InvalidBlock));
    assert_eq!(check_block(&block, &digest, None, 4, 0), Err(Error::InvalidBlock));
    assert_eq!(check_block(&block, &digest, Some(parent), 5, 0), Err(Error::InvalidBlock));
    block.header.difficulty = 5;
    assert_eq!(check_block(&block, &digest, Some(parent), 5, 0), Err(Error::InvalidBlock));
    block.header.difficulty = 4;
    block.header.timestamp = 3601;
    assert_eq!(check_block(&block, &digest, Some(parent), 4, 0), Err(Error::InvalidBlock));
    assert_eq!(check_block(&block, &digest, Some(parent), 4, 1), Ok(()));
    let deepest = BlockHeader { depth: u64::MAX, ..parent };
    block.header.depth = 0;
    assert_eq!(check_block(&block, &digest, Some(deepest), 4, 1), Err(Error::InvalidBlock));
}

#[test]
fn check_transaction_on_plain_values() {
    let mut tx = Transaction::new([1u8; 32], [2u8; 32], 10, 3, 0);
    let digest: [u8; 32] = [4u8; 32];
    tx.hash = digest;
    let account = Some(Account { balance: 10, nonce: 3 });
    assert_eq!(check_transaction(&tx, &digest, true, account), Ok(()));
    assert_eq!(check_transaction(&tx, &digest, false, account), Err(Error::InvalidTransaction));
    assert_eq!(check_transaction(&tx, &[5u8; 32], true, account), Err(Error::InvalidTransaction));
    assert_eq!(check_transaction(&tx, &digest, true, None), Err(Error::UnknownAccount));
    assert_eq!(check_transaction(&tx, &digest, false, None), Err(Error::InvalidTransaction));
    assert_eq!(
        check_transaction(&tx, &digest, true, Some(Account { balance: 9, nonce: 3 })),
        Err(Error::InvalidTransaction)
    );
    assert_eq!(
        check_transaction(&tx, &digest, true, Some(Account { balance: 10, nonce: 2 })),
        Err(Error::InvalidTransaction)
    );
    assert_eq!(
        check_transaction(&tx, &digest, true, Some(Account { balance: 10, nonce: 4 })),
        Err(Error::InvalidTransaction)
    );
}

#[test]
fn sum_sent_adds_up_one_sender() {
    let a = [1u8; 32];
    let b = [2u8; 32];
    let txs = vec![
        Transaction::new(a, b, 5, 0, 0),
        Transaction::new(b, a, 7, 0, 0),
        Transaction::new(a, b, u64::MAX, 0, 0),
        Transaction::new(a, a, u64::MAX, 0, 0),
    ];
    assert_eq!(sum_sent(&txs, &a), 5 + 2 * (u64::MAX as u128));
    assert_eq!(sum_sent(&txs, &b), 7);
    assert_eq!(sum_sent(&txs, &[3u8; 32]), 0);
    assert_eq!(sum_sent(&Vec::new(), &a), 0);
}

#[test]
fn signature_is_checked() {
    let alice = key(7);
    let mallory = key(8);
    let chain = funded_chain(&[(address(&alice), 100)]);
    let good = signed(&alice, BOB, 40, 0);
    assert!(good.is_signed());
    assert_eq!(chain.validate_transaction(&good), Ok(()));

    let mut unsigned = good;
    unsigned.signature = None;
    assert!(!unsigned.is_signed());
    assert_eq!(chain.validate_transaction(&unsigned), Err(Error::InvalidTransaction));

    let mut forged = good;
    forged.signature = Some(mallory.sign(&good.hash).to_bytes());
    assert!(!forged.is_signed());
    assert_eq!(chain.validate_transaction(&forged), Err(Error::InvalidTransaction));

    let mut flipped = good;
    let mut signature = good.signature.unwrap();
    signature[10] ^= 1;
    flipped.signature = Some(signature);
    assert!(!flipped.is_signed());
    assert_eq!(chain.validate_transaction(&flipped), Err(Error::InvalidTransaction));

    let mut zeroed = good;
    zeroed.signature = Some([0u8; 64]);
    assert!(!zeroed.is_signed());
}

#[test]
fn sender_that_is_no_key_is_rejected() {
    let alice = key(7);
    let mut not_a_point = [0xffu8; 32];
    not_a_point[0] = 0xfe;
    let chain = funded_chain(&[(not_a_point, 100)]);
    let mut tx = Transaction::new(not_a_point, BOB, 1, 0, NOW);
    tx.signature = Some(alice.sign(&tx.hash).to_bytes());
    assert!(!tx.is_signed());
    assert_eq!(chain.validate_transaction(&tx), Err(Error::InvalidTransaction));
}

#[test]
fn tampered_header_is_rejected() {
    let alice = key(7);
    let chain = funded_chain(&[(address(&alice), 100)]);
    let good = signed(&alice, BOB, 40, 0);
    assert_eq!(chain.validate_transaction(&good), Ok(()));

    let mut more = good;
    more.header.amount = 41;
    assert_eq!(chain.validate_transaction(&more), Err(Error::InvalidTransaction));

    let mut redirected = good;
    redirected.header.receiver[0] ^= 1;
    assert_eq!(chain.validate_transaction(&redirected), Err(Error::InvalidTransaction));

    let mut later = good;
    later.header.timestamp += 1;
    assert_eq!(chain.validate_transaction(&later), Err(Error::InvalidTransaction));

    let mut rehashed = more;
    rehashed.hash = rehashed.header.hash();
    assert_eq!(chain.validate_transaction(&rehashed), Err(Error::InvalidTransaction));

    let mut other_sender = good;
    other_sender.header.sender = address(&key(8));
    assert_eq!(chain.validate_transaction(&other_sender), Err(Error::InvalidTransaction));
}

#[test]
fn nonce_must_be_the_expected_one() {
    let alice = key(7);
    let mut chain = funded_chain(&[(address(&alice), 100)]);
    assert_eq!(chain.validate_transaction(&signed(&alice, BOB, 1, 1)), Err(Error::InvalidTransaction));
    assert_eq!(chain.validate_transaction(&signed(&alice, BOB, 1, 0)), Ok(()));

    let genesis = tip_hash(&chain);
    let first = mine(genesis, 2, NOW, vec![signed(&alice, BOB, 1, 0)]);
    let first_hash = first.hash.unwrap();
    assert_eq!(chain.add_new_block_at(first, NOW), Ok(()));

    assert_eq!(chain.validate_transaction(&signed(&alice, BOB, 1, 0)), Err(Error::InvalidTransaction));
    assert_eq!(chain.validate_transaction(&signed(&alice, BOB, 1, 2)), Err(Error::InvalidTransaction));
    assert_eq!(chain.validate_transaction(&signed(&alice, BOB, 1, 1)), Ok(()));

    let replay = mine(first_hash, 3, NOW + 1, vec![signed(&alice, BOB, 1, 0)]);
    assert_eq!(chain.add_new_block_at(replay, NOW + 1), Err(Error::InvalidTransaction));
    let gap = mine(first_hash, 3, NOW + 1, vec![signed(&alice, BOB, 1, 2)]);
    assert_eq!(chain.add_new_block_at(gap, NOW + 1), Err(Error::InvalidTransaction));
    assert_eq!(chain.depth(), 2);
    assert_eq!(chain.get_account(&address(&alice)), Some(Account { balance: 99, nonce: 1 }));
}

#[test]
fn double_spend_in_one_block_is_rejected() {
    let alice = key(7);
    let mut chain = funded_chain(&[(address(&alice), 100)]);
    let genesis = tip_hash(&chain);
    let first = signed(&alice, BOB, 60, 0);
    let second = signed(&alice, [8u8; 32], 50, 0);
    assert_eq!(chain.validate_transaction(&first), Ok(()));
    assert_eq!(chain.validate_transaction(&second), Ok(()));
    assert_eq!(
        chain.validate_transaction_set(&vec![first, second]),
        Err(Error::InvalidTransactionSet)
    );
    let block = mine(genesis, 2, NOW, vec![first, second]);
    assert!(!chain.verify_block_at(&block, NOW));
    assert_eq!(chain.add_new_block_at(block, NOW), Err(Error::InvalidTransactionSet));
    assert_eq!(chain.depth(), 1);
    assert_eq!(chain.get_account(&address(&alice)), Some(Account { balance: 100, nonce: 0 }));
    assert_eq!(chain.get_account(&BOB), None);

    let third = signed(&alice, [8u8; 32], 40, 0);
    assert_eq!(chain.validate_transaction_set(&vec![first, third]), Ok(()));
}

#[test]
fn transaction_set_faults() {
    let alice = key(7);
    let carol = key(11);
    let chain = funded_chain(&[(address(&alice), 100)]);
    assert_eq!(chain.validate_transaction_set(&Vec::new()), Ok(()));
    assert_eq!(
        chain.validate_transaction_set(&vec![signed(&carol, BOB, 1, 0)]),
        Err(Error::UnknownAccount)
    );
    assert_eq!(
        chain.validate_transaction_set(&vec![signed(&alice, BOB, 101, 0)]),
        Err(Error::InvalidTransactionSet)
    );
    assert_eq!(
        chain.validate_transaction_set(&vec![signed(&alice, BOB, 100, 1)]),
        Err(Error::InvalidTransaction)
    );
    assert_eq!(
        chain.validate_transaction_set(&vec![signed(&alice, BOB, 100, 1), signed(&carol, BOB, 1, 0)]),
        Err(Error::InvalidTransaction)
    );
    assert_eq!(
        chain.validate_transaction_set(&vec![signed(&carol, BOB, 1, 0), signed(&alice, BOB, 100, 1)]),
        Err(Error::UnknownAccount)
    );
    assert_eq!(chain.validate_transaction(&signed(&carol, BOB, 1, 0)), Err(Error::UnknownAccount));
}

#[test]
fn rejected_block_changes_nothing() {
    let alice = key(7);
    let mut chain = funded_chain(&[(address(&alice), 100)]);
    let genesis = tip_hash(&chain);
    let block = mine(genesis, 2, NOW, vec![signed(&alice, BOB, 40, 0), signed(&alice, BOB, 10, 1)]);
    assert_eq!(chain.add_new_block_at(block.clone(), NOW), Err(Error::InvalidTransaction));
    assert_eq!(chain.depth(), 1);
    assert_eq!(tip_hash(&chain), genesis);
    assert_eq!(chain.get_block(&block.hash.unwrap()), None);
    assert_eq!(chain.get_block_headers().len(), 1);
    assert_eq!(chain.get_account(&address(&alice)), Some(Account { balance: 100, nonce: 0 }));
    assert_eq!(chain.get_account(&BOB), None);
}

#[test]
fn first_block_at_a_depth_stays_tip() {
    let mut chain = Chain::new_with_genesis();
    let genesis = tip_hash(&chain);
    let b1 = mine(genesis, 2, NOW, Vec::new());
    let b2 = mine(genesis, 2, NOW + 1, Vec::new());
    assert_ne!(b1.hash, b2.hash);

    assert_eq!(chain.add_new_block_at(b1.clone(), NOW + 1), Ok(()));
    assert_eq!(chain.add_new_block_at(b2.clone(), NOW + 1), Ok(()));
    assert_eq!(chain.depth(), 2);
    assert_eq!(chain.get_top_block(), Some(&b1));
    assert_eq!(chain.get_block(&b2.hash.unwrap()), Some(&b2));

    let mut other = Chain::new_with_genesis();
    assert_eq!(other.add_new_block_at(b2.clone(), NOW + 1), Ok(()));
    assert_eq!(other.add_new_block_at(b1.clone(), NOW + 1), Ok(()));
    assert_eq!(other.depth(), 2);
    assert_eq!(other.get_top_block(), Some(&b2));
}

#[test]
fn deeper_fork_takes_the_tip() {
    let mut chain = Chain::new_with_genesis();
    let genesis = tip_hash(&chain);
    let a2 = mine(genesis, 2, NOW, Vec::new());
    let b2 = mine(genesis, 2, NOW + 1, Vec::new());
    let b3 = mine(b2.hash.unwrap(), 3, NOW + 2, Vec::new());
    let a3 = mine(a2.hash.unwrap(), 3, NOW + 3, Vec::new());
    assert_eq!(chain.add_new_block_at(a2.clone(), NOW + 9), Ok(()));
    assert_eq!(chain.add_new_block_at(b2.clone(), NOW + 9), Ok(()));
    assert_eq!(chain.get_top_block(), Some(&a2));
    assert_eq!(chain.add_new_block_at(b3.clone(), NOW + 9), Ok(()));
    assert_eq!(chain.depth(), 3);
    assert_eq!(chain.get_top_block(), Some(&b3));
    assert_eq!(chain.add_new_block_at(a3.clone(), NOW + 9), Ok(()));
    assert_eq!(chain.depth(), 3);
    assert_eq!(chain.get_top_block(), Some(&b3));
    assert_eq!(chain.get_block_headers().len(), 5);
}

#[test]
fn forest_only_grows_and_depth_never_falls() {
    let alice = key(7);
    let mut chain = funded_chain(&[(address(&alice), 100)]);
    let genesis_block = chain.get_top_block().unwrap().clone();
    let genesis = genesis_block.hash.unwrap();
    let a2 = mine(genesis, 2, NOW, vec![signed(&alice, BOB, 10, 0)]);
    let a3 = mine(a2.hash.unwrap(), 3, NOW + 1, Vec::new());
    let submissions = vec![
        a3.clone(),
        a2.clone(),
        mine(genesis, 2, NOW + 5000, Vec::new()),
        a3.clone(),
        mine(genesis, 2, NOW + 2, Vec::new()),
        mine(genesis, 2, NOW + 3, vec![signed(&alice, BOB, 10, 0)]),
        a2.clone(),
    ];
    let mut known: Vec<Block> = vec![genesis_block];
    let mut depth: u64 = chain.depth();
    for block in submissions {
        let outcome = chain.add_new_block_at(block.clone(), NOW + 10);
        assert!(chain.depth() >= depth);
        depth = chain.depth();
        assert_eq!(chain.get_top_block().unwrap().header.depth, depth);
        for earlier in &known {
            assert_eq!(chain.get_block(&earlier.hash.unwrap()), Some(earlier));
        }
        if outcome.is_ok() {
            known.push(block);
        }
        assert_eq!(chain.get_block_headers().len(), known.len());
    }
    assert_eq!(depth, 3);
    assert_eq!(known.len(), 4);
}

#[test]
fn known_block_is_accepted_and_changes_nothing() {
    let alice = key(7);
    let mut chain = funded_chain(&[(address(&alice), 100)]);
    let genesis_block = chain.get_top_block().unwrap().clone();
    let genesis = genesis_block.hash.unwrap();
    let block = mine(genesis, 2, NOW, Vec::new());
    assert_eq!(chain.add_new_block_at(block.clone(), NOW), Ok(()));
    assert_eq!(chain.add_new_block_at(block.clone(), NOW), Ok(()));
    assert_eq!(chain.depth(), 2);
    assert_eq!(chain.get_top_block(), Some(&block));
    assert_eq!(chain.get_block_headers().len(), 2);

    let mut other_payload = block.clone();
    other_payload.transactions = vec![signed(&alice, BOB, 40, 0)];
    assert!(chain.verify_block_at(&other_payload, NOW));
    assert_eq!(chain.add_new_block_at(other_payload, NOW), Ok(()));
    assert_eq!(chain.get_block(&block.hash.unwrap()), Some(&block));
    assert_eq!(chain.get_block_headers().len(), 2);
    assert_eq!(chain.get_account(&address(&alice)), Some(Account { balance: 100, nonce: 0 }));
    assert_eq!(chain.get_account(&BOB), None);

    assert_eq!(chain.add_new_block_at(genesis_block, NOW), Err(Error::InvalidBlock));
}

#[test]
fn resubmitted_block_with_spent_nonce_is_rejected() {
    let alice = key(7);
    let mut chain = funded_chain(&[(address(&alice), 100)]);
    let genesis = tip_hash(&chain);
    let block = mine(genesis, 2, NOW, vec![signed(&alice, BOB, 40, 0)]);
    assert_eq!(chain.add_new_block_at(block.clone(), NOW), Ok(()));
    assert_eq!(chain.add_new_block_at(block.clone(), NOW), Err(Error::InvalidTransaction));
    assert_eq!(chain.get_account(&address(&alice)), Some(Account { balance: 60, nonce: 1 }));
    assert_eq!(chain.get_account(&BOB), Some(Account { balance: 40, nonce: 0 }));
    assert_eq!(chain.get_block_headers().len(), 2);
}

#[test]
fn success_exactly_when_both_validations_pass() {
    let alice = key(7);
    let genesis = tip_hash(&Chain::new_with_genesis());
    let good = mine(genesis, 2, NOW, vec![signed(&alice, BOB, 40, 0)]);
    let submissions = vec![
        good.clone(),
        good.clone(),
        mine(genesis, 2, NOW + 1, Vec::new()),
        mine(genesis, 3, NOW + 1, Vec::new()),
        mine(genesis, 2, NOW + 2, vec![signed(&alice, BOB, 61, 1)]),
        mine(genesis, 2, NOW + 3, vec![signed(&alice, BOB, 60, 1)]),
        mine(good.hash.unwrap(), 3, NOW + 4, vec![signed(&alice, BOB, 1, 1)]),
        mine(good.hash.unwrap(), 3, NOW + 7200, Vec::new()),
    ];
    let mut chain = funded_chain(&[(address(&alice), 100)]);
    for block in submissions {
        let passes = chain.validate_block_at(&block, NOW + 10).is_ok()
            && chain.validate_transaction_set(&block.transactions).is_ok();
        assert_eq!(chain.verify_block_at(&block, NOW + 10), passes);
        assert_eq!(chain.add_new_block_at(block, NOW + 10).is_ok(), passes);
    }
    assert_eq!(chain.depth(), 2);
    assert_eq!(chain.get_block_headers().len(), 4);
}

#[test]
fn verified_block_no_deeper_than_the_tip_leaves_the_tip() {
    let mut chain = Chain::new_with_genesis();
    let genesis = tip_hash(&chain);
    let a2 = mine(genesis, 2, NOW, Vec::new());
    let a3 = mine(a2.hash.unwrap(), 3, NOW + 1, Vec::new());
    assert_eq!(chain.add_new_block_at(a2.clone(), NOW + 9), Ok(()));
    assert_eq!(chain.add_new_block_at(a3.clone(), NOW + 9), Ok(()));
    let shallower = mine(genesis, 2, NOW + 2, Vec::new());
    let tie = mine(a2.hash.unwrap(), 3, NOW + 3, Vec::new());
    for block in [shallower, tie, a2.clone(), a3.clone()] {
        assert_eq!(chain.add_new_block_at(block, NOW + 9), Ok(()));
        assert_eq!(chain.depth(), 3);
        assert_eq!(chain.get_top_block(), Some(&a3));
    }
    assert_eq!(chain.get_block_headers().len(), 5);
}

#[test]
fn difficulty_is_a_setting() {
    let easy = Chain::new_with_difficulty(AccountManager::new(), 0);
    assert_eq!(easy.difficulty(), 0);
    assert_eq!(easy.depth(), 1);
    let genesis = easy.get_top_block().unwrap().clone();
    assert_eq!(Chain::new_with_genesis().get_top_block(), Some(&genesis));
    let child = Block::new(
        genesis.hash.unwrap(),
        genesis.header.depth + 1,
        genesis.header.timestamp + 1,
        Vec::new(),
        0,
        Some([0u8; 32]),
        0,
    );
    assert_eq!(easy.validate_block_at(&child, 1_000_000), Ok(()));
    assert!(easy.verify_block_at(&child, 1_000_000));

    let mut hard = Chain::new_with_difficulty(AccountManager::new(), 8);
    assert_eq!(hard.difficulty(), 8);
    let at_four = mine_with(genesis.hash.unwrap(), 2, NOW, Vec::new(), 4, Some(MINER), 0);
    assert_eq!(hard.add_new_block_at(at_four, NOW), Err(Error::InvalidBlock));
    let at_eight = mine_with(genesis.hash.unwrap(), 2, NOW, Vec::new(), 8, Some(MINER), 0);
    assert_eq!(hard.add_new_block_at(at_eight.clone(), NOW), Ok(()));
    assert_eq!(hard.get_top_block(), Some(&at_eight));
    assert_eq!(Chain::new_with_genesis().add_new_block_at(at_eight, NOW), Err(Error::InvalidBlock));
}

#[test]
fn a_clone_is_a_chain_of_its_own() {
    let mut chain = Chain::new_with_genesis();
    let genesis = tip_hash(&chain);
    let copy = chain.clone();
    let block = mine(genesis, 2, NOW, Vec::new());
    assert_eq!(chain.add_new_block_at(block.clone(), NOW), Ok(()));
    assert_eq!(chain.depth(), 2);
    assert_eq!(copy.depth(), 1);
    assert_eq!(copy.get_block(&block.hash.unwrap()), None);
    assert_eq!(tip_hash(&copy), genesis);
    assert!(format!("{:?}", copy).contains("deepest_hash"));
}

#[test]
fn headers_of_the_whole_forest() {
    let mut chain = Chain::new_with_genesis();
    let genesis_block = chain.get_top_block().unwrap().clone();
    let genesis = genesis_block.hash.unwrap();
    let a2 = mine(genesis, 2, NOW, Vec::new());
    let b2 = mine(genesis, 2, NOW + 1, Vec::new());
    assert_eq!(chain.add_new_block_at(a2.clone(), NOW + 1), Ok(()));
    assert_eq!(chain.add_new_block_at(b2.clone(), NOW + 1), Ok(()));
    let headers = chain.get_block_headers();
    assert_eq!(headers.len(), 3);
    assert!(headers.contains(&genesis_block.header));
    assert!(headers.contains(&a2.header));
    assert!(headers.contains(&b2.header));
}
