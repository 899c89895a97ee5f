//! Identifier hashing: a text is mapped to the `m`-bit ring by the first
//! eight bytes of its SHA-256 digest, read big-endian, modulo `2^m`.

use sha2::{Digest, Sha256};
use vstd::arithmetic::power2::{lemma2_to64, lemma_pow2_strictly_increases, pow2};
use vstd::bits::lemma_u64_shl_is_mul;
use vstd::prelude::*;

verus! {

/// The widest identifier space whose points fit the `u32` identifiers.
pub const MAX_BITS: u32 = 32;

/// The SHA-256 digest of the UTF-8 encoding of `text`.
pub uninterp spec fn sha256(text: Seq<char>) -> Seq<u8>;

/// The first `n` bytes of `bytes` read as a big-endian number.
pub open spec fn be_value(bytes: Seq<u8>, n: nat) -> nat
    decreases n,
{
    if n == 0 {
        0
    } else {
        256 * be_value(bytes, (n - 1) as nat) + bytes[n - 1] as nat
    }
}

/// The ring identifier that a digest stands for in an `m`-bit space.
pub open spec fn digest_hash(digest: Seq<u8>, m: nat) -> nat {
    be_value(digest, 8) % pow2(m)
}

/// The ring identifier of `text` in an `m`-bit space.
pub open spec fn spec_hash(text: Seq<char>, m: nat) -> nat {
    digest_hash(sha256(text), m)
}

/// A big-endian number of `n` bytes is below `2^(8n)`.
pub proof fn lemma_be_value_bound(bytes: Seq<u8>, n: nat)
    requires
        n <= 8,
    ensures
        be_value(bytes, n) < pow2(8 * n),
    decreases n,
{
    lemma2_to64();
    if n > 0 {
        lemma_be_value_bound(bytes, (n - 1) as nat);
        vstd::arithmetic::power2::lemma_pow2_adds(8, (8 * (n - 1)) as nat);
        assert(8 + 8 * (n - 1) == 8 * n);
        let rest = be_value(bytes, (n - 1) as nat);
        let top = pow2((8 * (n - 1)) as nat);
        assert(256 * rest + 255 < 256 * top) by (nonlinear_arith)
            requires
                rest < top,
        ;
    }
}

/// Every identifier of an `m`-bit space is below `2^m`.
pub proof fn lemma_hash_in_ring(text: Seq<char>, m: nat)
    ensures
        spec_hash(text, m) < pow2(m),
{
    vstd::arithmetic::power2::lemma_pow2_pos(m);
    vstd::arithmetic::div_mod::lemma_mod_bound(be_value(sha256(text), 8) as int, pow2(m) as int);
}

/// `sha2::Sha256`: `new`, one `update` with the bytes of `input`, then
/// `finalize`. The contract names the 32-byte digest that SHA-256 assigns to
/// the text; nothing else is claimed of it.
#[verifier::external_body]
fn sha256_digest(input: &str) -> (digest: [u8; 32])
    ensures
        digest@ == sha256(input@),
{
    let mut hasher = Sha256::new();
    hasher.update(input);
    hasher.finalize().into()
}

/// The size `2^m` of an identifier space of at most 32 bits.
pub fn ring_size(m: u32) -> (size: u64)
    requires
        m <= MAX_BITS,
    ensures
        size == pow2(m as nat),
        0 < size <= 0x1_0000_0000,
{
    proof {
        lemma2_to64();
        if m < 32 {
            lemma_pow2_strictly_increases(m as nat, 32);
        }
        vstd::arithmetic::power2::lemma_pow2_pos(m as nat);
        lemma_u64_shl_is_mul(1, m as u64);
    }
    1u64 << (m as u64)
}

/// The identifier that a SHA-256 digest stands for.
pub fn hash_of_digest(digest: &[u8; 32], m: u32) -> (h: u32)
    requires
        m <= MAX_BITS,
    ensures
        h == digest_hash(digest@, m as nat),
{
    let mut value: u64 = 0;
    let mut i: usize = 0;
    while i < 8
        invariant
            i <= 8,
            value == be_value(digest@, i as nat),
        decreases 8 - i,
    {
        proof {
            lemma_be_value_bound(digest@, i as nat);
            vstd::arithmetic::power2::lemma2_to64_rest();
            if i < 7 {
                lemma_pow2_strictly_increases(8 * (i as nat), 56);
            }
            assert(value < 0x100_0000_0000_0000);
        }
        value = value * 256 + digest[i] as u64;
        i += 1;
    }
    let size = ring_size(m);
    (value % size) as u32
}

/// The ring identifier of `input` in an `m`-bit space.
pub fn hash(input: &str, m: u32) -> (h: u32)
    requires
        m <= MAX_BITS,
    ensures
        h == spec_hash(input@, m as nat),
{
    let digest = sha256_digest(input);
    hash_of_digest(&digest, m)
}

} // verus!
