//! Seeding: hashers and hashing states that start from a seed value.

use vstd::prelude::*;

verus! {

/// Implementors can be created from a seed of type `T`.
pub trait Seedable<T>: Sized {
    /// What a freshly seeded value satisfies.
    spec fn seeded(&self, seed: T) -> bool;

    /// Creates the value in its initial state for `seed`.
    fn from_seed(seed: T) -> (r: Self)
        ensures
            r.seeded(seed),
    ;
}

} // verus!
