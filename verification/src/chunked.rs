//! Buffer that splits incoming byte streams into aligned 16-byte
//! blocks, buffering the unaligned leftover between calls.

use vstd::prelude::*;

use arrayvec::ArrayVec;

use crate::model::aligned_len;
use crate::model::chunk_blocks;
use crate::model::tail_part;

verus! {

#[verifier::external_type_specification]
#[verifier::external_body]
#[verifier::reject_recursive_types(T)]
pub struct ExArrayVec<T, const CAP: usize>(ArrayVec<T, CAP>);

/// The bytes a residual buffer currently holds, oldest first.
pub uninterp spec fn stored(v: ArrayVec<u8, 16>) -> Seq<u8>;

/// Relies on arrayvec::ArrayVec::new: a freshly created vector holds
/// nothing.
#[verifier::external_body]
fn av_new() -> (v: ArrayVec<u8, 16>)
    ensures
        stored(v) == Seq::<u8>::empty(),
{
    ArrayVec::new()
}

/// Relies on arrayvec::ArrayVec::len: the number of held elements.
#[verifier::external_body]
fn av_len(v: &ArrayVec<u8, 16>) -> (n: usize)
    ensures
        n == stored(*v).len(),
{
    v.len()
}

/// Relies on arrayvec::ArrayVec::push: appends one element at the
/// back. It panics only on a full vector, which the precondition
/// rules out.
#[verifier::external_body]
fn av_push(v: &mut ArrayVec<u8, 16>, b: u8)
    requires
        stored(*old(v)).len() < 16,
    ensures
        stored(*final(v)) == stored(*old(v)).push(b),
{
    v.push(b)
}

/// Relies on arrayvec::ArrayVec::clear: removes every element.
#[verifier::external_body]
fn av_clear(v: &mut ArrayVec<u8, 16>)
    ensures
        stored(*final(v)) == Seq::<u8>::empty(),
{
    v.clear()
}

/// Relies on arrayvec::ArrayVec::as_slice: a view of the held
/// elements, oldest first.
#[verifier::external_body]
fn av_as_slice(v: &ArrayVec<u8, 16>) -> (s: &[u8])
    ensures
        s@ == stored(*v),
{
    v.as_slice()
}

/// The views of a sequence of byte vectors.
spec fn views_of(blocks: Seq<Vec<u8>>) -> Seq<Seq<u8>> {
    blocks.map_values(|b: Vec<u8>| b@)
}

proof fn lemma_views_of_push(bs: Seq<Vec<u8>>, b: Vec<u8>)
    ensures
        views_of(bs.push(b)) == views_of(bs).push(b@),
{
    assert(views_of(bs.push(b)) =~= views_of(bs).push(b@));
}

/// Takes in arbitrarily sized byte slices and hands back the aligned
/// 16-byte blocks they contain, transparently splicing in the bytes
/// left over from earlier calls.
pub struct Chunked {
    buf: ArrayVec<u8, 16>,
}

/// Eager, forward-only iterator over the blocks one [`Chunked::next`]
/// call produced. Every block is an independent snapshot: mutating the
/// originating buffer afterwards cannot invalidate it.
pub struct ChunkIter {
    blocks: Vec<Vec<u8>>,
    pos: usize,
}

impl Chunked {
    /// The residual bytes: received input not yet part of any block.
    pub closed spec fn buffered(&self) -> Seq<u8> {
        stored(self.buf)
    }

    /// The residual is always strictly shorter than one block.
    pub open spec fn inv(&self) -> bool {
        self.buffered().len() < 16
    }

    /// Splices the residual in front of `data` and hands back every
    /// complete 16-byte block of the combination, in order; whatever
    /// trails the last complete block becomes the new residual.
    pub fn next(&mut self, data: &[u8]) -> (it: ChunkIter)
        requires
            old(self).inv(),
        ensures
            final(self).inv(),
            it.inv(),
            it.pos() == 0,
            it.all_blocks() == chunk_blocks(old(self).buffered() + data@),
            final(self).buffered() == tail_part(old(self).buffered() + data@),
    {
        let ghost s0 = self.buffered();
        let ghost s = s0 + data@;
        let mut blocks: Vec<Vec<u8>> = Vec::new();
        let mut pos: usize = 0;

        proof {
            assert(s.take(s0.len() as int) =~= s0);
        }

        if av_len(&self.buf) > 0 {
            // Top the residual up from the front of `data`; if that
            // completes a block, emit an independent copy of it first.
            while pos < data.len() && av_len(&self.buf) < 16
                invariant
                    s0.len() < 16,
                    s == s0 + data@,
                    pos <= data@.len(),
                    self.buffered().len() <= 16,
                    self.buffered() == s.take(s0.len() + pos),
                decreases data@.len() - pos,
            {
                av_push(&mut self.buf, data[pos]);
                pos = pos + 1;
                proof {
                    assert(s.take(s0.len() + pos) =~= s.take(s0.len() + pos - 1).push(
                        data@[pos - 1],
                    ));
                }
            }
            if av_len(&self.buf) == 16 {
                let ghost bpre = blocks@;
                let blk: Vec<u8> = vstd::slice::slice_to_vec(av_as_slice(&self.buf));
                av_clear(&mut self.buf);
                blocks.push(blk);
                proof {
                    assert(s0.len() + pos == 16);
                    assert(s.len() >= 16);
                    assert(blk@ =~= s.subrange(0, 16));
                    lemma_views_of_push(bpre, blk);
                    assert(views_of(bpre) =~= Seq::<Seq<u8>>::empty());
                    assert(chunk_blocks(s)[0] == s.subrange(0, 16));
                    assert(views_of(blocks@) =~= chunk_blocks(s).take(1));
                }
            }
        }

        if av_len(&self.buf) == 0 {
            proof {
                if pos == 0 {
                    assert(s0.len() == 0);
                    assert(views_of(blocks@) =~= chunk_blocks(s).take(0));
                }
                assert((s0.len() + pos) % 16 == 0);
            }
            // Carve complete blocks straight out of `data`.
            while data.len() - pos >= 16
                invariant
                    s == s0 + data@,
                    pos <= data@.len(),
                    self.buffered().len() == 0,
                    (s0.len() + pos) % 16 == 0,
                    views_of(blocks@) == chunk_blocks(s).take(((s0.len() + pos) / 16) as int),
                decreases data@.len() - pos,
            {
                let ghost d0 = s0.len() + pos;
                let ghost bpre = blocks@;
                let blk: Vec<u8> = vstd::slice::slice_to_vec(
                    vstd::slice::slice_subrange(data, pos, pos + 16),
                );
                blocks.push(blk);
                pos = pos + 16;
                proof {
                    let k = (d0 / 16) as int;
                    assert(16 * k == d0);
                    assert(d0 + 16 <= s.len());
                    assert(chunk_blocks(s).len() == s.len() / 16);
                    assert(k < s.len() / 16) by (nonlinear_arith)
                        requires
                            16 * k + 16 <= s.len(),
                            k >= 0,
                    ;
                    assert(blk@ =~= s.subrange(16 * k, 16 * k + 16));
                    assert(chunk_blocks(s)[k] == s.subrange(16 * k, 16 * k + 16));
                    lemma_views_of_push(bpre, blk);
                    assert(chunk_blocks(s).take(k).push(chunk_blocks(s)[k]) =~= chunk_blocks(
                        s,
                    ).take(k + 1));
                    assert(((s0.len() + pos) / 16) as int == k + 1);
                }
            }
            proof {
                let d2 = s0.len() + pos;
                assert(d2 == aligned_len(s.len())) by (nonlinear_arith)
                    requires
                        d2 % 16 == 0,
                        d2 <= s.len() < d2 + 16,
                        aligned_len(s.len()) == s.len() - s.len() % 16,
                ;
                assert(chunk_blocks(s).take(((d2 / 16) as int)) =~= chunk_blocks(s));
                assert(self.buffered() =~= s.subrange(
                    aligned_len(s.len()) as int,
                    d2 as int,
                ));
            }
            // Buffer the unaligned leftover as the new residual.
            while pos < data.len()
                invariant
                    s == s0 + data@,
                    pos <= data@.len(),
                    data@.len() - pos < 16,
                    aligned_len(s.len()) <= s0.len() + pos,
                    views_of(blocks@) == chunk_blocks(s),
                    self.buffered() == s.subrange(
                        aligned_len(s.len()) as int,
                        s0.len() + pos,
                    ),
                decreases data@.len() - pos,
            {
                av_push(&mut self.buf, data[pos]);
                pos = pos + 1;
                proof {
                    assert(s.subrange(aligned_len(s.len()) as int, s0.len() + pos) =~= s.subrange(
                        aligned_len(s.len()) as int,
                        s0.len() + pos - 1,
                    ).push(data@[pos - 1]));
                }
            }
            proof {
                assert(self.buffered() =~= tail_part(s));
            }
        } else {
            proof {
                assert(pos == data@.len());
                assert(self.buffered() =~= s);
                assert(s.len() < 16);
                assert(chunk_blocks(s) =~= views_of(blocks@));
                assert(tail_part(s) =~= s);
            }
        }

        let it = ChunkIter { blocks, pos: 0 };
        proof {
            assert forall|i: int| 0 <= i < it.all_blocks().len() implies (#[trigger] it.all_blocks()[
                i
            ]).len() == 16 by {
                assert(chunk_blocks(s)[i] == s.subrange(16 * i, 16 * i + 16));
            }
        }
        it
    }

    /// A read-only view of the current residual: the bytes that must
    /// still go through the tail path once the stream ends.
    pub fn remainder(&self) -> (s: &[u8])
        ensures
            s@ == self.buffered(),
    {
        av_as_slice(&self.buf)
    }
}

impl Default for Chunked {
    /// An empty buffer: no residual bytes.
    fn default() -> (c: Self)
        ensures
            c.inv(),
            c.buffered() == Seq::<u8>::empty(),
    {
        Chunked { buf: av_new() }
    }
}

impl ChunkIter {
    /// Every block the originating call produced, in emission order.
    pub closed spec fn all_blocks(&self) -> Seq<Seq<u8>> {
        views_of(self.blocks@)
    }

    /// How many blocks have been handed out so far.
    pub closed spec fn pos(&self) -> int {
        self.pos as int
    }

    pub open spec fn inv(&self) -> bool {
        &&& 0 <= self.pos() <= self.all_blocks().len()
        &&& forall|i: int|
            0 <= i < self.all_blocks().len() ==> (#[trigger] self.all_blocks()[i]).len() == 16
    }

    /// Whether another block is waiting.
    pub fn has_next(&self) -> (b: bool)
        ensures
            b == (self.pos() < self.all_blocks().len()),
    {
        self.pos < self.blocks.len()
    }

    /// The next block in order, or `None` once every block has been
    /// handed out.
    pub fn next(&mut self) -> (r: Option<Vec<u8>>)
        requires
            old(self).inv(),
        ensures
            final(self).inv(),
            final(self).all_blocks() == old(self).all_blocks(),
            (match r {
                Some(blk) => {
                    &&& old(self).pos() < old(self).all_blocks().len()
                    &&& blk@ == old(self).all_blocks()[old(self).pos()]
                    &&& final(self).pos() == old(self).pos() + 1
                },
                None => {
                    &&& old(self).pos() == old(self).all_blocks().len()
                    &&& final(self).pos() == old(self).pos()
                },
            }),
    {
        if self.pos < self.blocks.len() {
            let blk = vstd::slice::slice_to_vec(&self.blocks[self.pos]);
            self.pos = self.pos + 1;
            Some(blk)
        } else {
            None
        }
    }
}

} // verus!
