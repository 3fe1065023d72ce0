//! Low-level Murmur3 hashing states.

use vstd::prelude::*;

pub mod x64_128;

pub use x64_128::State64x128;

verus! {

/// A Murmur3 hashing state. It absorbs aligned blocks of exactly `N`
/// bytes via [`State::push_block`]; the final sub-block remainder of
/// the stream, 0 to `N - 1` bytes, goes through [`State::push_tail`]
/// at most once, after every block; [`State::finish`] then folds the
/// state into the digest, consuming it, so no push can follow.
pub trait State<const N: usize>: Sized {
    /// The type of digest this state produces.
    type Output;

    /// Well-formedness of the state.
    spec fn inv(&self) -> bool;

    /// Whether `n` more bytes fit the state's byte counter.
    spec fn can_absorb(&self, n: nat) -> bool;

    /// How the state after absorbing one aligned block relates to the
    /// state before.
    spec fn block_post(&self, pre: Self, block: Seq<u8>) -> bool;

    /// How the state after absorbing the final partial block relates
    /// to the state before.
    spec fn tail_post(&self, pre: Self, tail: Seq<u8>) -> bool;

    /// The digest `finish` returns on the current state.
    spec fn digest(&self) -> Self::Output;

    /// Absorbs one aligned block of exactly `N` bytes.
    fn push_block(&mut self, data: &[u8])
        requires
            data@.len() == N,
            old(self).inv(),
            old(self).can_absorb(N as nat),
        ensures
            final(self).inv(),
            final(self).block_post(*old(self), data@),
    ;

    /// Absorbs the final partial block of fewer than `N` bytes.
    fn push_tail(&mut self, data: &[u8])
        requires
            data@.len() < N,
            old(self).inv(),
            old(self).can_absorb(data@.len()),
        ensures
            final(self).inv(),
            final(self).tail_post(*old(self), data@),
    ;

    /// Finalizes the state into the digest, consuming it.
    fn finish(self) -> (r: Self::Output)
        requires
            self.inv(),
        ensures
            r == self.digest(),
    ;
}

} // verus!
