//! The injected source of randomness: a deterministically seedable uniform
//! sampler, used for weight initialisation and for drawing training points.
//! The generator itself comes from the rand crate; nothing is assumed about
//! the values drawn beyond the requested range.

use rand::RngExt;
use rand::SeedableRng;
use vstd::prelude::*;

verus! {

#[verifier::external_type_specification]
#[verifier::external_body]
pub struct ExStdRng(rand::rngs::StdRng);

/// A seeded pseudo-random sampler. The same seed yields the same draws, so
/// training runs are reproducible.
pub struct Sampler {
    rng: rand::rngs::StdRng,
}

impl Sampler {
    /// Relies on rand's `StdRng::seed_from_u64` (via `SeedableRng`) to build
    /// a deterministic generator from a word-sized seed.
    #[verifier::external_body]
    pub fn from_seed(seed: u64) -> Sampler {
        Sampler { rng: rand::rngs::StdRng::seed_from_u64(seed) }
    }

    /// Relies on rand's `RngExt::random_range` on an `i64` half-open range:
    /// the draw lies in `[lo, hi)`. The call panics on an empty range, which
    /// the precondition rules out.
    #[verifier::external_body]
    pub fn next_in_range(&mut self, lo: i64, hi: i64) -> (r: i64)
        requires
            lo < hi,
        ensures
            lo <= r < hi,
    {
        self.rng.random_range(lo..hi)
    }

    /// Relies on rand's `RngExt::random_range` on a `usize` half-open range:
    /// the draw lies in `[0, n)`. The call panics on an empty range, which
    /// the precondition rules out.
    #[verifier::external_body]
    pub fn next_index(&mut self, n: usize) -> (r: usize)
        requires
            n > 0,
        ensures
            r < n,
    {
        self.rng.random_range(0..n)
    }
}

} // verus!
