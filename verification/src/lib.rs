//! Streaming, seedable implementation of the 128-bit Murmur3 hash
//! (the 64-bit-optimized variant), verified against a mathematical
//! model of the algorithm.
//!
//! The crate is split into the chunking buffer that reassembles
//! arbitrarily sized input slices into aligned 16-byte blocks
//! ([`chunked`]), the block/tail/finalize state machine that performs
//! the bit mixing ([`state`]), and the hasher facade that wires the two
//! together ([`hasher`]).

pub mod chunked;
pub mod hasher;
pub mod io;
pub mod model;
pub mod seed;
pub mod state;

pub use hasher::Murmur3x64x128;
pub use hasher::hash;

