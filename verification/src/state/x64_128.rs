//! The x64 128-bit Murmur3 hashing state.

use vstd::prelude::*;

use crate::model;
use crate::model::{C1, C2, F1, F2};
use crate::model::{block_k1, block_k2, block_step, finalize, le_nat, mix_k1, mix_k2, mix_tail};
use crate::model::{lemma_le_nat_bound, lemma_le_nat_small};
use crate::seed::Seedable;
use crate::state::State;

verus! {

/// Rotates a 64-bit word left by `n` bits.
fn rotl64(x: u64, n: u64) -> (r: u64)
    requires
        0 < n < 64,
    ensures
        r == model::rotl(x, n),
{
    (x << n) | (x >> (64 - n))
}

/// Reads `len` bytes of `data` starting at `off` as a little-endian
/// unsigned integer.
fn read_le(data: &[u8], off: usize, len: usize) -> (r: u64)
    requires
        off + len <= data@.len(),
        len <= 8,
    ensures
        r == le_nat(data@.subrange(off as int, off + len)),
{
    let n: usize = data.len();
    let mut r: u64 = 0;
    let mut j: usize = len;
    while j > 0
        invariant
            n == data@.len(),
            off + len <= data@.len(),
            len <= 8,
            j <= len,
            r == le_nat(data@.subrange(off + j, off + len)),
        decreases j,
    {
        proof {
            lemma_le_nat_small(data@.subrange(off + j, off + len));
        }
        j = j - 1;
        r = r * 0x100 + (data[off + j] as u64);
        proof {
            let t = data@.subrange(off + j, off + len);
            assert(t.drop_first() =~= data@.subrange(off + j + 1, off + len));
        }
    }
    r
}

/// The finalization avalanche, applied to each accumulator once the
/// whole stream has been absorbed.
fn fmix64(mut k: u64) -> (r: u64)
    ensures
        r == model::fmix64(k),
{
    k = (k ^ (k >> 33)).wrapping_mul(F1);
    k = (k ^ (k >> 33)).wrapping_mul(F2);
    k = k ^ (k >> 33);
    k
}

/// The x64 128-bit Murmur3 state machine: two 64-bit accumulators and
/// an exact count of the bytes absorbed so far. The counter cannot
/// silently wrap: every absorbing operation requires room for the new
/// bytes up front, so the length folded in at finalization is always
/// the true stream length.
pub struct State64x128 {
    h1: u64,
    h2: u64,
    len: u64,
}

impl State64x128 {
    /// The first accumulator.
    pub closed spec fn acc1(&self) -> u64 {
        self.h1
    }

    /// The second accumulator.
    pub closed spec fn acc2(&self) -> u64 {
        self.h2
    }

    /// The number of bytes absorbed so far.
    pub closed spec fn total(&self) -> u64 {
        self.len
    }

    /// Folds a first-lane word into the first accumulator.
    fn do_k1(&mut self, k1: u64)
        ensures
            final(self).h1 == old(self).h1 ^ mix_k1(k1),
            final(self).h2 == old(self).h2,
            final(self).len == old(self).len,
    {
        let a: u64 = k1.wrapping_mul(C1);
        let b: u64 = rotl64(a, 31);
        let c: u64 = b.wrapping_mul(C2);
        self.h1 = self.h1 ^ c;
    }

    /// Folds a second-lane word into the second accumulator.
    fn do_k2(&mut self, k2: u64)
        ensures
            final(self).h2 == old(self).h2 ^ mix_k2(k2),
            final(self).h1 == old(self).h1,
            final(self).len == old(self).len,
    {
        let a: u64 = k2.wrapping_mul(C2);
        let b: u64 = rotl64(a, 33);
        let c: u64 = b.wrapping_mul(C1);
        self.h2 = self.h2 ^ c;
    }
}

impl Seedable<u32> for State64x128 {
    /// Both accumulators start at the widened seed, nothing absorbed.
    open spec fn seeded(&self, seed: u32) -> bool {
        &&& self.acc1() == seed as u64
        &&& self.acc2() == seed as u64
        &&& self.total() == 0
    }

    fn from_seed(seed: u32) -> (r: Self) {
        State64x128 { h1: seed as u64, h2: seed as u64, len: 0 }
    }
}

impl State<16> for State64x128 {
    type Output = u128;

    open spec fn inv(&self) -> bool {
        true
    }

    open spec fn can_absorb(&self, n: nat) -> bool {
        self.total() + n <= u64::MAX
    }

    /// One block step: both lane words are pre-mixed, folded in, and
    /// each accumulator is rotated, cross-added and scrambled.
    open spec fn block_post(&self, pre: Self, block: Seq<u8>) -> bool {
        &&& (self.acc1(), self.acc2()) == block_step(
            pre.acc1(),
            pre.acc2(),
            block_k1(block),
            block_k2(block),
        )
        &&& self.total() == pre.total() + 16
    }

    /// The tail step: the zero-padded lane words are pre-mixed and
    /// folded in, but the block step's trailing rotate/add/scramble is
    /// deliberately absent.
    open spec fn tail_post(&self, pre: Self, tail: Seq<u8>) -> bool {
        &&& (self.acc1(), self.acc2()) == mix_tail(pre.acc1(), pre.acc2(), tail)
        &&& self.total() == pre.total() + tail.len()
    }

    open spec fn digest(&self) -> u128 {
        finalize(self.acc1(), self.acc2(), self.total())
    }

    fn push_block(&mut self, data: &[u8]) {
        let k1: u64 = read_le(data, 0, 8);
        let k2: u64 = read_le(data, 8, 8);
        proof {
            lemma_le_nat_bound(data@.subrange(0, 8));
            lemma_le_nat_bound(data@.subrange(8, 16));
        }
        self.do_k1(k1);
        self.h1 = rotl64(self.h1, 27);
        self.h1 = self.h1.wrapping_add(self.h2);
        self.h1 = self.h1.wrapping_mul(5).wrapping_add(0x52dce729);
        self.do_k2(k2);
        self.h2 = rotl64(self.h2, 31);
        self.h2 = self.h2.wrapping_add(self.h1);
        self.h2 = self.h2.wrapping_mul(5).wrapping_add(0x38495ab5);
        self.len = self.len + 16;
    }

    fn push_tail(&mut self, data: &[u8]) {
        let n: usize = data.len();
        if n > 0 {
            let k2: u64 = if n > 8 {
                read_le(data, 8, n - 8)
            } else {
                0
            };
            self.do_k2(k2);
            let k1: u64 = if n >= 8 {
                read_le(data, 0, 8)
            } else {
                read_le(data, 0, n)
            };
            self.do_k1(k1);
            proof {
                if n > 8 {
                    assert(data@.subrange(8, n as int) =~= data@.skip(8));
                }
                if n >= 8 {
                    assert(data@.subrange(0, 8) =~= data@.take(8));
                } else {
                    assert(data@.subrange(0, n as int) =~= data@);
                }
            }
        }
        self.len = self.len + (n as u64);
    }

    fn finish(self) -> (r: u128) {
        let mut h1: u64 = self.h1 ^ self.len;
        let mut h2: u64 = self.h2 ^ self.len;
        h1 = h1.wrapping_add(h2);
        h2 = h2.wrapping_add(h1);
        h1 = fmix64(h1);
        h2 = fmix64(h2);
        h1 = h1.wrapping_add(h2);
        h2 = h2.wrapping_add(h1);
        ((h2 as u128) << 64) | (h1 as u128)
    }
}

} // verus!
