//! Wrapper types that pair a stream with a hasher, so that every byte
//! passing through is also absorbed into the hash.
//!
//! The types here own the pairing and expose the hash-side interface.
//! The forwarding of actual reads and writes is I/O and lives with the
//! host application; it must feed the hasher exactly the bytes the
//! underlying stream confirmed as transferred.

use vstd::prelude::*;

use crate::hasher::Hasher;

verus! {

/// A reader paired with a hasher that absorbs everything read.
pub struct ReadHasher<R, H> {
    reader: R,
    hasher: H,
}

/// A writer paired with a hasher that absorbs everything written.
pub struct WriteHasher<W, H> {
    writer: W,
    hasher: H,
}

impl<R, H> ReadHasher<R, H> {
    /// The wrapped reader.
    pub closed spec fn spec_reader(&self) -> R {
        self.reader
    }

    /// The wrapped hasher.
    pub closed spec fn spec_hasher(&self) -> H {
        self.hasher
    }

    pub fn new(reader: R, hasher: H) -> (r: Self)
        ensures
            r.spec_reader() == reader,
            r.spec_hasher() == hasher,
    {
        ReadHasher { reader, hasher }
    }

    /// Takes the hasher back out of the pairing.
    pub fn into_hasher(self) -> (h: H)
        ensures
            h == self.spec_hasher(),
    {
        let ReadHasher { reader: _, hasher } = self;
        hasher
    }
}

impl<R, H: Hasher> ReadHasher<R, H> {
    /// Finalizes the hash over everything read so far.
    pub fn hash(self) -> (r: H::Output)
        requires
            self.spec_hasher().inv(),
        ensures
            r == self.spec_hasher().digest(),
    {
        let ReadHasher { reader: _, hasher } = self;
        hasher.finish()
    }
}

impl<W, H> WriteHasher<W, H> {
    /// The wrapped writer.
    pub closed spec fn spec_writer(&self) -> W {
        self.writer
    }

    /// The wrapped hasher.
    pub closed spec fn spec_hasher(&self) -> H {
        self.hasher
    }

    pub fn new(writer: W, hasher: H) -> (r: Self)
        ensures
            r.spec_writer() == writer,
            r.spec_hasher() == hasher,
    {
        WriteHasher { writer, hasher }
    }

    /// Takes the hasher back out of the pairing.
    pub fn into_hasher(self) -> (h: H)
        ensures
            h == self.spec_hasher(),
    {
        let WriteHasher { writer: _, hasher } = self;
        hasher
    }
}

impl<W, H: Hasher> WriteHasher<W, H> {
    /// Finalizes the hash over everything written so far.
    pub fn hash(self) -> (r: H::Output)
        requires
            self.spec_hasher().inv(),
        ensures
            r == self.spec_hasher().digest(),
    {
        let WriteHasher { writer: _, hasher } = self;
        hasher.finish()
    }
}

} // verus!
