//! The streaming hasher facade: a chunking buffer wired into the
//! block/tail/finalize state machine.

use vstd::prelude::*;

use crate::chunked::Chunked;
use crate::model::{aligned_len, blocks_part, cat_upto, chunk_blocks, hash_spec, mix_blocks, tail_part};
use crate::model::{lemma_aligned_len, lemma_aligned_prepend, lemma_cat_upto_len, lemma_cat_upto_take, lemma_mix_blocks_snoc};
use crate::seed::Seedable;
use crate::state::{State, State64x128};

verus! {

/// A streaming hasher: bytes go in through any number of `update`
/// calls, and one final `finish` yields the digest.
pub trait Hasher: Sized {
    /// The type of digest this hasher produces.
    type Output;

    /// Well-formedness of the hasher.
    spec fn inv(&self) -> bool;

    /// The bytes absorbed so far, across every `update` call.
    spec fn fed(&self) -> Seq<u8>;

    /// Whether `n` more bytes may be absorbed.
    spec fn can_feed(&self, n: nat) -> bool;

    /// The digest `finish` returns on the current state.
    spec fn digest(&self) -> Self::Output;

    /// Absorbs `data`. Successive calls concatenate: the hasher keeps
    /// no trace of where one call's bytes ended and the next's began.
    fn update(&mut self, data: &[u8])
        requires
            old(self).inv(),
            old(self).can_feed(data@.len()),
        ensures
            final(self).inv(),
            final(self).fed() == old(self).fed() + data@,
    ;

    /// Finalizes the hash, consuming the hasher.
    fn finish(self) -> (r: Self::Output)
        requires
            self.inv(),
        ensures
            r == self.digest(),
    ;
}

/// Streaming Murmur3 hasher: owns one chunking buffer and one hashing
/// state, and guarantees that any partitioning of a byte stream into
/// `update` calls produces the digest of the whole stream.
pub struct Murmur3Hasher {
    state: State64x128,
    chunked: Chunked,
    seed: Ghost<u32>,
    stream: Ghost<Seq<u8>>,
}

/// The hasher for the x64 128-bit Murmur3 variant.
pub type Murmur3x64x128 = Murmur3Hasher;

impl Murmur3Hasher {
    /// The seed this hasher was created from.
    pub closed spec fn seed_of(&self) -> u32 {
        self.seed@
    }
}

impl Seedable<u32> for Murmur3Hasher {
    /// A fresh hasher is well formed, remembers its seed, and has
    /// absorbed nothing.
    open spec fn seeded(&self, seed: u32) -> bool {
        &&& self.inv()
        &&& self.fed() == Seq::<u8>::empty()
        &&& self.seed_of() == seed
    }

    fn from_seed(seed: u32) -> (r: Self) {
        let r = Murmur3Hasher {
            state: State64x128::from_seed(seed),
            chunked: Chunked::default(),
            seed: Ghost(seed),
            stream: Ghost(Seq::empty()),
        };
        proof {
            assert(blocks_part(Seq::<u8>::empty()) =~= Seq::<u8>::empty());
            assert(tail_part(Seq::<u8>::empty()) =~= Seq::<u8>::empty());
        }
        r
    }
}

impl Hasher for Murmur3Hasher {
    type Output = u128;

    /// The chunk buffer holds exactly the unaligned suffix of the
    /// stream, and the state machine has absorbed exactly its aligned
    /// prefix.
    closed spec fn inv(&self) -> bool {
        &&& self.chunked.inv()
        &&& self.chunked.buffered() == tail_part(self.stream@)
        &&& (self.state.acc1(), self.state.acc2()) == mix_blocks(
            self.seed@ as u64,
            self.seed@ as u64,
            blocks_part(self.stream@),
        )
        &&& self.state.total() == aligned_len(self.stream@.len())
        &&& self.stream@.len() <= u64::MAX
    }

    closed spec fn fed(&self) -> Seq<u8> {
        self.stream@
    }

    open spec fn can_feed(&self, n: nat) -> bool {
        self.fed().len() + n <= u64::MAX
    }

    /// The digest is a pure function of the seed and the absorbed
    /// bytes — chunk boundaries leave no trace.
    open spec fn digest(&self) -> u128 {
        hash_spec(self.seed_of(), self.fed())
    }

    fn update(&mut self, data: &[u8])
        ensures
            final(self).seed_of() == old(self).seed_of(),
    {
        let ghost s0 = self.stream@;
        let ghost r0 = self.chunked.buffered();
        let ghost seedv = self.seed@ as u64;
        let mut it = self.chunked.next(data);
        self.stream = Ghost(s0 + data@);
        proof {
            lemma_aligned_len(s0.len());
            assert(blocks_part(s0) + (r0 + data@) =~= s0 + data@);
            lemma_aligned_prepend(blocks_part(s0), r0 + data@);
            assert(cat_upto(it.all_blocks(), 0) =~= Seq::<u8>::empty());
            assert(blocks_part(s0) + Seq::<u8>::empty() =~= blocks_part(s0));
            lemma_aligned_len((r0 + data@).len());
            lemma_aligned_len((s0 + data@).len());
        }
        let ghost m = r0 + data@;
        let ghost nblocks = it.all_blocks().len() as int;
        proof {
            assert(nblocks == m.len() / 16);
        }
        while it.has_next()
            invariant
                it.inv(),
                it.all_blocks() == chunk_blocks(m),
                nblocks == m.len() / 16,
                m == r0 + data@,
                self.stream@ == s0 + data@,
                self.seed@ as u64 == seedv,
                self.stream@.len() <= u64::MAX,
                self.chunked.inv(),
                self.chunked.buffered() == tail_part(self.stream@),
                blocks_part(self.stream@) == blocks_part(s0) + blocks_part(m),
                aligned_len(s0.len()) + m.len() == self.stream@.len(),
                (self.state.acc1(), self.state.acc2()) == mix_blocks(
                    seedv,
                    seedv,
                    blocks_part(s0) + cat_upto(it.all_blocks(), it.pos()),
                ),
                self.state.total() == aligned_len(s0.len()) + 16 * it.pos(),
                aligned_len(s0.len()) % 16 == 0,
                16 * it.pos() <= m.len(),
            decreases it.all_blocks().len() - it.pos(),
        {
            let ghost p = it.pos();
            let blk = it.next().unwrap();
            proof {
                assert(blk@ == it.all_blocks()[p]);
                let a = blocks_part(s0) + cat_upto(it.all_blocks(), p);
                lemma_cat_upto_len(it.all_blocks(), p);
                assert(a.len() % 16 == 0) by (nonlinear_arith)
                    requires
                        a.len() == aligned_len(s0.len()) + 16 * p,
                        aligned_len(s0.len()) % 16 == 0,
                        p >= 0,
                ;
                lemma_mix_blocks_snoc(seedv, seedv, a, blk@);
                assert(cat_upto(it.all_blocks(), p + 1) == cat_upto(it.all_blocks(), p) + blk@);
                assert(a + blk@ =~= blocks_part(s0) + cat_upto(it.all_blocks(), p + 1));
                assert(16 * (p + 1) <= m.len()) by (nonlinear_arith)
                    requires
                        p + 1 <= m.len() / 16,
                ;
            }
            self.state.push_block(&blk);
        }
        proof {
            lemma_cat_upto_take(m, nblocks);
            lemma_aligned_len(m.len());
            assert(cat_upto(it.all_blocks(), nblocks) == blocks_part(m));
            assert(16 * nblocks == aligned_len(m.len()));
            assert(aligned_len(self.stream@.len()) == aligned_len(s0.len()) + aligned_len(
                m.len(),
            ));
        }
    }

    fn finish(self) -> (r: u128) {
        let Murmur3Hasher { mut state, chunked, seed, stream } = self;
        let tail = chunked.remainder();
        proof {
            lemma_aligned_len(stream@.len());
        }
        state.push_tail(tail);
        state.finish()
    }
}

/// Hashes all of `data` in one shot: construct a hasher from `seed`,
/// feed `data` once, and finish.
pub fn hash(seed: u32, data: &[u8]) -> (r: u128)
    ensures
        r == hash_spec(seed, data@),
{
    let n: usize = data.len();
    let mut hasher = Murmur3x64x128::from_seed(seed);
    proof {
        assert(data@.len() <= u64::MAX);
    }
    hasher.update(data);
    proof {
        assert(Seq::<u8>::empty() + data@ =~= data@);
    }
    hasher.finish()
}

} // verus!
