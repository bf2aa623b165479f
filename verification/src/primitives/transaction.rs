//! Transactions: a signed transfer from one account to another.

use vstd::prelude::*;
use vstd::bytes::lemma_auto_spec_u64_to_from_le_bytes;
use vstd::bytes::spec_u64_to_le_bytes;
use crate::crypto::hashing::append_bytes;
use crate::crypto::hashing::append_u64;
use crate::crypto::hashing::digest;
use crate::crypto::hashing::sha256_digest;
use crate::crypto::signature::strict_signature_check;
use crate::crypto::signature::verify_strict;

verus! {

/// What a transaction says: who pays whom how much, and the sender's
/// counter that orders it.
#[derive(Clone, Copy, Debug, PartialEq, Eq)]
pub struct TransactionHeader {
    /// Public key of the paying account.
    pub sender: [u8; 32],
    /// Identifier of the account that is paid.
    pub receiver: [u8; 32],
    /// Amount that moves from sender to receiver.
    pub amount: u64,
    /// The sender's account nonce that this transaction uses up.
    pub nonce: u64,
    /// Unix seconds at which the transaction was made.
    pub timestamp: u64,
}

/// A transaction header with its digest and, once signed, the sender's
/// signature over that digest.
#[derive(Clone, Copy, Debug, PartialEq, Eq)]
pub struct Transaction {
    pub header: TransactionHeader,
    /// Digest of the header, computed when the transaction is made.
    pub hash: [u8; 32],
    /// The sender's signature over `hash`.
    pub signature: Option<[u8; 64]>,
}

impl TransactionHeader {
    /// The bytes that are hashed: sender, receiver, then amount, nonce and
    /// timestamp as eight little-endian bytes each.
    pub open spec fn spec_bytes(self) -> Seq<u8> {
        self.sender@ + self.receiver@ + spec_u64_to_le_bytes(self.amount) + spec_u64_to_le_bytes(
            self.nonce,
        ) + spec_u64_to_le_bytes(self.timestamp)
    }

    /// The digest of the header's bytes.
    pub open spec fn spec_hash(self) -> Seq<u8> {
        sha256_digest(self.spec_bytes())
    }

    /// The header's 88 bytes.
    pub fn to_bytes(&self) -> (bytes: Vec<u8>)
        ensures
            bytes@ == self.spec_bytes(),
    {
        let mut bytes: Vec<u8> = Vec::new();
        append_bytes(&mut bytes, self.sender.as_slice());
        append_bytes(&mut bytes, self.receiver.as_slice());
        append_u64(&mut bytes, self.amount);
        append_u64(&mut bytes, self.nonce);
        append_u64(&mut bytes, self.timestamp);
        assert(bytes@ =~= self.spec_bytes());
        bytes
    }

    /// The digest that names the header.
    pub fn hash(&self) -> (digest: [u8; 32])
        ensures
            digest@ == self.spec_hash(),
    {
        let bytes = self.to_bytes();
        digest(bytes.as_slice())
    }

    /// Two headers with the same bytes are the same header.
    pub proof fn lemma_bytes_injective(self, other: TransactionHeader)
        requires
            self.spec_bytes() == other.spec_bytes(),
        ensures
            self == other,
    {
        lemma_auto_spec_u64_to_from_le_bytes();
        let a = self.spec_bytes();
        let b = other.spec_bytes();
        assert(a.subrange(0, 32) =~= self.sender@);
        assert(b.subrange(0, 32) =~= other.sender@);
        assert(a.subrange(32, 64) =~= self.receiver@);
        assert(b.subrange(32, 64) =~= other.receiver@);
        assert(a.subrange(64, 72) =~= spec_u64_to_le_bytes(self.amount));
        assert(b.subrange(64, 72) =~= spec_u64_to_le_bytes(other.amount));
        assert(a.subrange(72, 80) =~= spec_u64_to_le_bytes(self.nonce));
        assert(b.subrange(72, 80) =~= spec_u64_to_le_bytes(other.nonce));
        assert(a.subrange(80, 88) =~= spec_u64_to_le_bytes(self.timestamp));
        assert(b.subrange(80, 88) =~= spec_u64_to_le_bytes(other.timestamp));
        assert(self.sender =~= other.sender);
        assert(self.receiver =~= other.receiver);
    }
}

impl Transaction {
    /// Whether a signature is present and passes the strict Ed25519 check
    /// over `hash` under the sender's public key.
    pub open spec fn spec_signed(self) -> bool {
        match self.signature {
            Some(signature) => strict_signature_check(self.header.sender@, self.hash@, signature@),
            None => false,
        }
    }

    /// Whether `hash` is the digest of the header.
    pub open spec fn spec_hash_intact(self) -> bool {
        self.hash@ == self.header.spec_hash()
    }

    /// An unsigned transaction with its digest computed.
    pub fn new(sender: [u8; 32], receiver: [u8; 32], amount: u64, nonce: u64, timestamp: u64) -> (tx:
        Transaction)
        ensures
            tx.header == (TransactionHeader { sender, receiver, amount, nonce, timestamp }),
            tx.spec_hash_intact(),
            tx.signature is None,
    {
        let header = TransactionHeader { sender, receiver, amount, nonce, timestamp };
        let hash = header.hash();
        Transaction { header, hash, signature: None }
    }

    /// Whether the transaction carries a signature of its sender over its digest.
    pub fn is_signed(&self) -> (ok: bool)
        ensures
            ok == self.spec_signed(),
    {
        match &self.signature {
            Some(signature) => verify_strict(&self.header.sender, &self.hash, signature),
            None => false,
        }
    }
}

} // verus!
