//! Blocks: a header that links to a parent, and the transactions it carries.

use vstd::prelude::*;
use vstd::bytes::lemma_auto_spec_u64_to_from_le_bytes;
use vstd::bytes::spec_u64_to_le_bytes;
use crate::crypto::hashing::append_bytes;
use crate::crypto::hashing::append_u64;
use crate::crypto::hashing::digest;
use crate::crypto::hashing::sha256_digest;
use crate::primitives::transaction::Transaction;

verus! {

/// The part of a block that is hashed.
#[derive(Clone, Copy, Debug, PartialEq, Eq)]
pub struct BlockHeader {
    /// Hash of the parent block; the parent is found by looking it up.
    pub previous_hash: [u8; 32],
    /// The parent's depth plus one; the genesis block has depth 1.
    pub depth: u64,
    /// Unix seconds at which the block was made.
    pub timestamp: u64,
    /// Number of zero bits that the block's hash has to start with.
    pub difficulty: u64,
    /// The counter that the miner varied to reach the difficulty.
    pub nonce: u64,
    /// Who produced the block.
    pub miner_address: Option<[u8; 32]>,
}

/// A header, its digest once computed, and the transactions in the order in
/// which they are checked and applied.
#[derive(Clone, Debug, PartialEq, Eq)]
pub struct Block {
    pub header: BlockHeader,
    pub hash: Option<[u8; 32]>,
    pub transactions: Vec<Transaction>,
}

/// How the optional miner address is written: a byte that says whether one
/// follows, then its 32 bytes.
pub open spec fn miner_bytes(miner: Option<[u8; 32]>) -> Seq<u8> {
    match miner {
        Some(address) => seq![1u8] + address@,
        None => seq![0u8],
    }
}

impl BlockHeader {
    /// The bytes that are hashed: the parent's hash, then depth, timestamp,
    /// difficulty and nonce as eight little-endian bytes each, then the
    /// miner address.
    pub open spec fn spec_bytes(self) -> Seq<u8> {
        self.previous_hash@ + spec_u64_to_le_bytes(self.depth) + spec_u64_to_le_bytes(
            self.timestamp,
        ) + spec_u64_to_le_bytes(self.difficulty) + spec_u64_to_le_bytes(self.nonce) + miner_bytes(
            self.miner_address,
        )
    }

    /// The digest of the header's bytes.
    pub open spec fn spec_hash(self) -> Seq<u8> {
        sha256_digest(self.spec_bytes())
    }

    /// The header's bytes.
    pub fn to_bytes(&self) -> (bytes: Vec<u8>)
        ensures
            bytes@ == self.spec_bytes(),
    {
        let mut bytes: Vec<u8> = Vec::new();
        append_bytes(&mut bytes, self.previous_hash.as_slice());
        append_u64(&mut bytes, self.depth);
        append_u64(&mut bytes, self.timestamp);
        append_u64(&mut bytes, self.difficulty);
        append_u64(&mut bytes, self.nonce);
        let ghost front = bytes@;
        match &self.miner_address {
            Some(address) => {
                bytes.push(1);
                append_bytes(&mut bytes, address.as_slice());
                assert(bytes@ =~= front + (seq![1u8] + address@));
            },
            None => {
                bytes.push(0);
                assert(bytes@ =~= front + seq![0u8]);
            },
        }
        bytes
    }

    /// The digest that names the header.
    pub fn hash(&self) -> (digest: [u8; 32])
        ensures
            digest@ == self.spec_hash(),
    {
        let bytes = self.to_bytes();
        digest(bytes.as_slice())
    }

    /// Two headers with the same bytes are the same header.
    pub proof fn lemma_bytes_injective(self, other: BlockHeader)
        requires
            self.spec_bytes() == other.spec_bytes(),
        ensures
            self == other,
    {
        lemma_auto_spec_u64_to_from_le_bytes();
        let a = self.spec_bytes();
        let b = other.spec_bytes();
        assert(a.subrange(0, 32) =~= self.previous_hash@);
        assert(b.subrange(0, 32) =~= other.previous_hash@);
        assert(a.subrange(32, 40) =~= spec_u64_to_le_bytes(self.depth));
        assert(b.subrange(32, 40) =~= spec_u64_to_le_bytes(other.depth));
        assert(a.subrange(40, 48) =~= spec_u64_to_le_bytes(self.timestamp));
        assert(b.subrange(40, 48) =~= spec_u64_to_le_bytes(other.timestamp));
        assert(a.subrange(48, 56) =~= spec_u64_to_le_bytes(self.difficulty));
        assert(b.subrange(48, 56) =~= spec_u64_to_le_bytes(other.difficulty));
        assert(a.subrange(56, 64) =~= spec_u64_to_le_bytes(self.nonce));
        assert(b.subrange(56, 64) =~= spec_u64_to_le_bytes(other.nonce));
        assert(self.previous_hash =~= other.previous_hash);
        let ma = miner_bytes(self.miner_address);
        let mb = miner_bytes(other.miner_address);
        assert(a.subrange(64, a.len() as int) =~= ma);
        assert(b.subrange(64, b.len() as int) =~= mb);
        assert(ma[0] == mb[0]);
        match (self.miner_address, other.miner_address) {
            (Some(x), Some(y)) => {
                assert(ma.subrange(1, 33) =~= x@);
                assert(mb.subrange(1, 33) =~= y@);
                assert(x =~= y);
            },
            _ => {},
        }
    }
}

impl Block {
    /// Whether a hash is present and is the digest of the header.
    pub open spec fn spec_hash_intact(self) -> bool {
        match self.hash {
            Some(hash) => hash@ == self.header.spec_hash(),
            None => false,
        }
    }

    /// A block over the given header fields and transactions, with its hash
    /// computed.
    pub fn new(
        previous_hash: [u8; 32],
        depth: u64,
        timestamp: u64,
        transactions: Vec<Transaction>,
        difficulty: u64,
        miner_address: Option<[u8; 32]>,
        nonce: u64,
    ) -> (block: Block)
        ensures
            block.header == (BlockHeader {
                previous_hash,
                depth,
                timestamp,
                difficulty,
                nonce,
                miner_address,
            }),
            block.spec_hash_intact(),
            block.transactions == transactions,
    {
        let header = BlockHeader {
            previous_hash,
            depth,
            timestamp,
            difficulty,
            nonce,
            miner_address,
        };
        let hash = header.hash();
        Block { header, hash: Some(hash), transactions }
    }
}

} // verus!
