//! Mathematical model of the Murmur3 x64 128-bit hash.
//!
//! Everything here is specification-level: the executable code in
//! [`crate::state`], [`crate::chunked`] and [`crate::hasher`] is proved
//! to compute exactly what these functions describe.

use vstd::prelude::*;

verus! {

/// Number of bytes in one aligned block.
pub const BLOCK: usize = 16;

/// First multiplication constant of the block mix.
pub const C1: u64 = 0x87c37b91114253d5;

/// Second multiplication constant of the block mix.
pub const C2: u64 = 0x4cf5ad432745937f;

/// First multiplication constant of the finalization mix.
pub const F1: u64 = 0xff51afd7ed558ccd;

/// Second multiplication constant of the finalization mix.
pub const F2: u64 = 0xc4ceb9fe1a85ec53;

/// Value of a byte sequence read as a little-endian unsigned integer.
pub open spec fn le_nat(s: Seq<u8>) -> nat
    decreases s.len(),
{
    if s.len() == 0 {
        0
    } else {
        (s.first() + 0x100 * le_nat(s.drop_first())) as nat
    }
}

/// 256 to the `n`th power: the number of byte strings of length `n`.
pub open spec fn p256(n: nat) -> nat
    decreases n,
{
    if n == 0 {
        1
    } else {
        0x100 * p256((n - 1) as nat)
    }
}

pub proof fn lemma_p256_pos(n: nat)
    ensures
        p256(n) >= 1,
    decreases n,
{
    if n > 0 {
        lemma_p256_pos((n - 1) as nat);
    }
}

pub proof fn lemma_p256_mono(a: nat, b: nat)
    requires
        a <= b,
    ensures
        p256(a) <= p256(b),
    decreases b,
{
    if a < b {
        lemma_p256_mono(a, (b - 1) as nat);
        lemma_p256_pos((b - 1) as nat);
    }
}

/// A sequence of `n` bytes denotes a value below 256^n.
pub proof fn lemma_le_nat_bound(s: Seq<u8>)
    ensures
        le_nat(s) < p256(s.len()),
    decreases s.len(),
{
    if s.len() > 0 {
        lemma_le_nat_bound(s.drop_first());
    }
}

/// At most seven bytes leave room to shift another byte in.
pub proof fn lemma_le_nat_small(s: Seq<u8>)
    requires
        s.len() <= 7,
    ensures
        le_nat(s) < 0x100000000000000,
{
    lemma_le_nat_bound(s);
    lemma_p256_mono(s.len(), 7);
    reveal_with_fuel(p256, 8);
    assert(p256(7) == 0x100000000000000);
}

/// Left rotation of a 64-bit word by `n` bits.
pub open spec fn rotl(x: u64, n: u64) -> u64
    recommends
        0 < n < 64,
{
    (x << n) | (x >> ((64 - n) as u64))
}

/// Pre-mix applied to a first-lane word before it is folded into `h1`.
pub open spec fn mix_k1(k1: u64) -> u64 {
    rotl(k1.wrapping_mul(C1), 31).wrapping_mul(C2)
}

/// Pre-mix applied to a second-lane word before it is folded into `h2`.
pub open spec fn mix_k2(k2: u64) -> u64 {
    rotl(k2.wrapping_mul(C2), 33).wrapping_mul(C1)
}

/// First-lane word of an aligned block: bytes 0..8, little endian.
pub open spec fn block_k1(block: Seq<u8>) -> u64
    recommends
        block.len() == 16,
{
    le_nat(block.subrange(0, 8)) as u64
}

/// Second-lane word of an aligned block: bytes 8..16, little endian.
pub open spec fn block_k2(block: Seq<u8>) -> u64
    recommends
        block.len() == 16,
{
    le_nat(block.subrange(8, 16)) as u64
}

/// Effect of absorbing one aligned 16-byte block on the accumulators.
pub open spec fn block_step(h1: u64, h2: u64, k1: u64, k2: u64) -> (u64, u64) {
    let a1 = rotl(h1 ^ mix_k1(k1), 27);
    let b1 = a1.wrapping_add(h2);
    let c1 = b1.wrapping_mul(5).wrapping_add(0x52dce729);
    let a2 = rotl(h2 ^ mix_k2(k2), 31);
    let b2 = a2.wrapping_add(c1);
    let c2 = b2.wrapping_mul(5).wrapping_add(0x38495ab5);
    (c1, c2)
}

/// Accumulators after absorbing a whole block-aligned byte sequence,
/// front to back. Sequences shorter than a block are left untouched.
pub open spec fn mix_blocks(h1: u64, h2: u64, data: Seq<u8>) -> (u64, u64)
    decreases data.len(),
{
    if data.len() < 16 {
        (h1, h2)
    } else {
        let h = block_step(h1, h2, block_k1(data.take(16)), block_k2(data.take(16)));
        mix_blocks(h.0, h.1, data.skip(16))
    }
}

/// First-lane word of a 0..15-byte tail: bytes 0..min(len, 8),
/// little endian, zero padded.
pub open spec fn tail_k1(tail: Seq<u8>) -> u64 {
    if tail.len() >= 8 {
        le_nat(tail.take(8)) as u64
    } else {
        le_nat(tail) as u64
    }
}

/// Second-lane word of a 0..15-byte tail: bytes 8..len, little endian,
/// zero padded; zero when the tail has no ninth byte.
pub open spec fn tail_k2(tail: Seq<u8>) -> u64 {
    if tail.len() > 8 {
        le_nat(tail.skip(8)) as u64
    } else {
        0
    }
}

/// Effect of absorbing the final partial block. Unlike a full block,
/// the tail mix stops at the XOR into the accumulators: the trailing
/// rotate/add/multiply-add of the block step is deliberately absent.
pub open spec fn mix_tail(h1: u64, h2: u64, tail: Seq<u8>) -> (u64, u64)
    recommends
        tail.len() < 16,
{
    if tail.len() == 0 {
        (h1, h2)
    } else {
        (h1 ^ mix_k1(tail_k1(tail)), h2 ^ mix_k2(tail_k2(tail)))
    }
}

/// Finalization avalanche applied to each accumulator.
pub open spec fn fmix64(x: u64) -> u64 {
    let a = (x ^ (x >> 33)).wrapping_mul(F1);
    let b = (a ^ (a >> 33)).wrapping_mul(F2);
    b ^ (b >> 33)
}

/// Finalization: fold the total byte count in, cross-mix, avalanche,
/// cross-mix again. `h1` lands in the low 64 bits of the digest.
pub open spec fn finalize(h1: u64, h2: u64, len: u64) -> u128 {
    let a1 = h1 ^ len;
    let a2 = h2 ^ len;
    let b1 = a1.wrapping_add(a2);
    let b2 = a2.wrapping_add(b1);
    let c1 = fmix64(b1);
    let c2 = fmix64(b2);
    let d1 = c1.wrapping_add(c2);
    let d2 = c2.wrapping_add(d1);
    ((d2 as u128) << 64) | (d1 as u128)
}

/// Length of the longest block-aligned prefix of an `n`-byte stream.
pub open spec fn aligned_len(n: nat) -> nat {
    (n - (n % 16)) as nat
}

/// Block-aligned prefix of a stream: the bytes the block mix consumes.
pub open spec fn blocks_part(data: Seq<u8>) -> Seq<u8> {
    data.take(aligned_len(data.len()) as int)
}

/// Unaligned suffix of a stream: the 0..15 bytes the tail mix consumes.
pub open spec fn tail_part(data: Seq<u8>) -> Seq<u8> {
    data.skip(aligned_len(data.len()) as int)
}

/// The Murmur3 x64 128-bit digest of `data` under `seed`.
pub open spec fn hash_spec(seed: u32, data: Seq<u8>) -> u128
    recommends
        data.len() <= u64::MAX,
{
    let h = mix_blocks(seed as u64, seed as u64, blocks_part(data));
    let t = mix_tail(h.0, h.1, tail_part(data));
    finalize(t.0, t.1, data.len() as u64)
}

/// The aligned blocks of a stream, in order, each 16 bytes.
pub open spec fn chunk_blocks(s: Seq<u8>) -> Seq<Seq<u8>> {
    Seq::new(s.len() / 16, |i: int| s.subrange(16 * i, 16 * i + 16))
}

/// Concatenation of the first `i` of a sequence of byte sequences.
pub open spec fn cat_upto(bs: Seq<Seq<u8>>, i: int) -> Seq<u8>
    decreases i,
{
    if i <= 0 {
        Seq::empty()
    } else {
        cat_upto(bs, i - 1) + bs[i - 1]
    }
}

/// The aligned prefix length is the largest multiple of 16 that still
/// fits the stream.
pub proof fn lemma_aligned_len(n: nat)
    ensures
        aligned_len(n) % 16 == 0,
        aligned_len(n) <= n,
        n - aligned_len(n) < 16,
        aligned_len(n) == 16 * (n / 16),
{
    assert(n % 16 == n - 16 * (n / 16)) by (nonlinear_arith);
    assert((16 * (n / 16)) % 16 == 0) by (nonlinear_arith);
}

/// Concatenating `i` sequences of 16 bytes yields `16 * i` bytes.
pub proof fn lemma_cat_upto_len(bs: Seq<Seq<u8>>, i: int)
    requires
        0 <= i <= bs.len(),
        forall|j: int| 0 <= j < bs.len() ==> (#[trigger] bs[j]).len() == 16,
    ensures
        cat_upto(bs, i).len() == 16 * i,
    decreases i,
{
    if i > 0 {
        lemma_cat_upto_len(bs, i - 1);
    }
}

/// The first `k` blocks of a stream concatenate to its `16 * k`-byte
/// prefix.
pub proof fn lemma_cat_upto_take(s: Seq<u8>, k: int)
    requires
        0 <= k <= s.len() / 16,
    ensures
        cat_upto(chunk_blocks(s), k) == s.take(16 * k),
    decreases k,
{
    if k == 0 {
        assert(cat_upto(chunk_blocks(s), 0) =~= s.take(0));
    } else {
        lemma_cat_upto_take(s, k - 1);
        assert(s.take(16 * (k - 1)) + s.subrange(16 * (k - 1), 16 * k) =~= s.take(16 * k));
    }
}

/// Absorbing a block-aligned sequence followed by more data mixes the
/// same accumulators as absorbing the two pieces one after the other:
/// the block mix is insensitive to where the stream is cut, as long as
/// the cut falls on a block boundary.
pub proof fn lemma_mix_blocks_append(h1: u64, h2: u64, a: Seq<u8>, b: Seq<u8>)
    requires
        a.len() % 16 == 0,
    ensures
        mix_blocks(h1, h2, a + b) == ({
            let h = mix_blocks(h1, h2, a);
            mix_blocks(h.0, h.1, b)
        }),
    decreases a.len(),
{
    if a.len() == 0 {
        assert(a + b =~= b);
    } else {
        assert((a + b).take(16) =~= a.take(16));
        assert((a + b).skip(16) =~= a.skip(16) + b);
        let h = block_step(h1, h2, block_k1(a.take(16)), block_k2(a.take(16)));
        lemma_mix_blocks_append(h.0, h.1, a.skip(16), b);
    }
}

/// Absorbing one more aligned block after a block-aligned sequence
/// applies exactly one block step.
pub proof fn lemma_mix_blocks_snoc(h1: u64, h2: u64, a: Seq<u8>, blk: Seq<u8>)
    requires
        a.len() % 16 == 0,
        blk.len() == 16,
    ensures
        mix_blocks(h1, h2, a + blk) == ({
            let h = mix_blocks(h1, h2, a);
            block_step(h.0, h.1, block_k1(blk), block_k2(blk))
        }),
{
    lemma_mix_blocks_append(h1, h2, a, blk);
    let h = mix_blocks(h1, h2, a);
    assert(mix_blocks(h.0, h.1, blk) == block_step(h.0, h.1, block_k1(blk), block_k2(blk))) by {
        reveal_with_fuel(mix_blocks, 3);
        assert(blk.take(16) =~= blk);
        assert(blk.skip(16).len() == 0);
        let st = block_step(h.0, h.1, block_k1(blk), block_k2(blk));
        assert(mix_blocks(st.0, st.1, blk.skip(16)) == (st.0, st.1));
    };
}

/// Prepending a block-aligned sequence extends the aligned prefix and
/// leaves the unaligned suffix alone.
pub proof fn lemma_aligned_prepend(a: Seq<u8>, s: Seq<u8>)
    requires
        a.len() % 16 == 0,
    ensures
        blocks_part(a + s) == a + blocks_part(s),
        tail_part(a + s) == tail_part(s),
{
    let n = a.len();
    let m = s.len();
    assert((n + m) % 16 == m % 16) by (nonlinear_arith)
        requires
            n % 16 == 0,
    ;
    assert(blocks_part(a + s) =~= a + blocks_part(s));
    assert(tail_part(a + s) =~= tail_part(s));
}

} // verus!
