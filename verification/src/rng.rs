//! The source of raw random integers that every sampler draws from.

use vstd::prelude::*;

verus! {

/// A source of raw random integers.
///
/// The samplers ask for whole 32-bit or 64-bit words and expect each word to
/// be uniformly distributed and independent of the others. Nothing is known
/// about the word a call returns, so the contracts of the samplers hold for
/// every word the source may produce.
pub trait Rng {
    /// The next 32 random bits.
    fn next_u32(&mut self) -> u32;

    /// The next 64 random bits.
    fn next_u64(&mut self) -> u64;
}

} // verus!
