//! Proof of work: counting the zero bits in front of a digest.

use vstd::prelude::*;
use vstd::std_specs::bits::axiom_u8_leading_zeros;
use vstd::std_specs::bits::u8_leading_zeros;

verus! {

/// Number of zero bits in front of the highest set bit of `b`; 8 for a zero byte.
pub open spec fn byte_leading_zeros(b: u8) -> nat {
    if b >= 128 {
        0
    } else if b >= 64 {
        1
    } else if b >= 32 {
        2
    } else if b >= 16 {
        3
    } else if b >= 8 {
        4
    } else if b >= 4 {
        5
    } else if b >= 2 {
        6
    } else if b >= 1 {
        7
    } else {
        8
    }
}

/// Number of zero bits in front of the first set bit of a byte string, read
/// from its first byte on and from the high bit of each byte down. A string
/// of zero bytes counts eight bits per byte.
pub open spec fn leading_zero_bits(bytes: Seq<u8>) -> nat
    decreases bytes.len(),
{
    if bytes.len() == 0 {
        0
    } else if bytes[0] == 0 {
        8 + leading_zero_bits(bytes.skip(1))
    } else {
        byte_leading_zeros(bytes[0])
    }
}

/// A digest meets a difficulty when it starts with at least that many zero bits.
pub open spec fn meets_difficulty(difficulty: u64, digest: Seq<u8>) -> bool {
    leading_zero_bits(digest) >= difficulty
}

/// The standard library's count of a byte's leading zeros is `byte_leading_zeros`.
pub proof fn lemma_byte_leading_zeros(b: u8)
    ensures
        u8_leading_zeros(b) == byte_leading_zeros(b),
{
    axiom_u8_leading_zeros(b);
    let k: u8 = u8_leading_zeros(b) as u8;
    let above: u8 = (8 - k) as u8;
    let top: u8 = if k < 8 {
        (7 - k) as u8
    } else {
        0
    };
    assert(byte_leading_zeros(b) == k) by (bit_vector)
        requires
            k <= 8,
            above == 8 - k,
            k < 8 ==> top == 7 - k,
            b >> above == 0,
            k < 8 ==> (b >> top) & 1u8 != 0u8,
            b == 0 <==> k == 8,
    ;
}

/// Zero bytes in front contribute eight bits each; the count goes on behind them.
pub proof fn lemma_leading_zero_bits_skip(bytes: Seq<u8>, n: int)
    requires
        0 <= n <= bytes.len(),
        forall|i: int| 0 <= i < n ==> bytes[i] == 0,
    ensures
        leading_zero_bits(bytes) == 8 * n + leading_zero_bits(bytes.skip(n)),
    decreases n,
{
    if n == 0 {
        assert(bytes.skip(0) =~= bytes);
    } else {
        lemma_leading_zero_bits_skip(bytes.skip(1), n - 1);
        assert(bytes.skip(1).skip(n - 1) =~= bytes.skip(n));
    }
}

/// Counts the zero bits in front of the first set bit of a 32-byte digest.
pub fn count_leading_zero_bits(digest: &[u8; 32]) -> (count: u64)
    ensures
        count == leading_zero_bits(digest@),
        count <= 256,
{
    let mut i: usize = 0;
    while i < 32
        invariant
            i <= 32,
            forall|j: int| 0 <= j < i ==> digest@[j] == 0,
        decreases 32 - i,
    {
        let byte: u8 = digest[i];
        if byte != 0 {
            let zeros: u32 = byte.leading_zeros();
            proof {
                lemma_byte_leading_zeros(byte);
                lemma_leading_zero_bits_skip(digest@, i as int);
                assert(digest@.skip(i as int)[0] == byte);
            }
            return 8 * (i as u64) + (zeros as u64);
        }
        i += 1;
    }
    proof {
        lemma_leading_zero_bits_skip(digest@, 32);
        assert(digest@.skip(32).len() == 0);
    }
    256
}

/// Whether a digest starts with at least `difficulty` zero bits.
pub fn hash_meets_difficulty(difficulty: u64, digest: &[u8; 32]) -> (ok: bool)
    ensures
        ok == meets_difficulty(difficulty, digest@),
{
    count_leading_zero_bits(digest) >= difficulty
}

/// A digest of zero bytes alone has eight leading zero bits per byte, so a
/// 32-byte digest of zeros meets every difficulty up to 256 and none above.
pub proof fn lemma_zero_digest_meets_up_to_256(difficulty: u64, digest: Seq<u8>)
    requires
        digest.len() == 32,
        forall|i: int| 0 <= i < 32 ==> digest[i] == 0,
    ensures
        leading_zero_bits(digest) == 256,
        meets_difficulty(difficulty, digest) <==> difficulty <= 256,
{
    lemma_leading_zero_bits_skip(digest, 32);
    assert(digest.skip(32).len() == 0);
}

/// A digest whose first byte has its high bit set has no leading zero bit:
/// it meets difficulty 0 and no other.
pub proof fn lemma_high_bit_meets_only_zero(difficulty: u64, digest: Seq<u8>)
    requires
        digest.len() > 0,
        digest[0] >= 128,
    ensures
        leading_zero_bits(digest) == 0,
        meets_difficulty(difficulty, digest) <==> difficulty == 0,
{
}

/// The threshold is monotone: a digest that meets a difficulty meets every
/// lower one.
pub proof fn lemma_difficulty_monotone(lower: u64, higher: u64, digest: Seq<u8>)
    requires
        lower <= higher,
        meets_difficulty(higher, digest),
    ensures
        meets_difficulty(lower, digest),
{
}

/// No difficulty above eight bits per byte can be met.
pub proof fn lemma_leading_zero_bits_bound(bytes: Seq<u8>)
    ensures
        leading_zero_bits(bytes) <= 8 * bytes.len(),
    decreases bytes.len(),
{
    if bytes.len() > 0 && bytes[0] == 0 {
        lemma_leading_zero_bits_bound(bytes.skip(1));
    }
}

} // verus!
