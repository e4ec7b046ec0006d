//! The seeded random source.
//!
//! The simulation's only nondeterminism is the sequence of draws taken from a
//! [`GameRng`], which wraps rand's `StdRng` and is passed explicitly to every
//! stochastic function, so a fixed seed reproduces a game exactly.  The
//! contracts of the draw functions state only what holds of every outcome (a
//! range, a positive weight); nothing is assumed about which value comes
//! back, so all callers are verified for every possible draw.

use vstd::prelude::*;
use rand::Rng;
use rand::SeedableRng;
use rand::distributions::Distribution;

verus! {

#[verifier::external_type_specification]
#[verifier::external_body]
pub struct ExStdRng(rand::rngs::StdRng);

/// Sum of a weight vector, the quantity the weighted draw is proportional
/// to.
pub open spec fn spec_weight_sum(w: Seq<u64>) -> int
    decreases w.len(),
{
    if w.len() == 0 {
        0
    } else {
        spec_weight_sum(w.drop_last()) + w.last()
    }
}

/// The random source threaded through a simulation.
pub struct GameRng {
    inner: rand::rngs::StdRng,
}

impl GameRng {
    /// Relies on rand's `StdRng::seed_from_u64`: builds the deterministic
    /// generator for this seed.
    #[verifier::external_body]
    pub fn from_seed(seed: u64) -> GameRng {
        GameRng { inner: rand::rngs::StdRng::seed_from_u64(seed) }
    }

    /// Relies on rand's `Rng::gen_range` over `0..bound`: a uniform draw
    /// strictly below `bound` (`gen_range` panics on an empty range, so the
    /// bound must be positive).
    #[verifier::external_body]
    pub fn below(&mut self, bound: u64) -> (r: u64)
        requires
            bound >= 1,
        ensures
            r < bound,
    {
        self.inner.gen_range(0..bound)
    }

    /// A uniform draw from the fixed-point unit interval: millionths in
    /// `[0, 1_000_000)`.
    pub fn unit(&mut self) -> (r: u64)
        ensures
            r < 1_000_000,
    {
        self.below(1_000_000)
    }

    /// Relies on rand's `WeightedIndex::<u64>::new` and `sample`: with a
    /// nonempty weight vector of positive total that fits in `u64`, `new`
    /// succeeds and `sample` returns the index of a weight-proportional draw,
    /// which always carries a positive weight.
    #[verifier::external_body]
    pub fn weighted_index(&mut self, weights: &Vec<u64>) -> (r: usize)
        requires
            weights@.len() > 0,
            spec_weight_sum(weights@) > 0,
            spec_weight_sum(weights@) <= u64::MAX,
        ensures
            r < weights@.len(),
            weights@[r as int] > 0,
    {
        let dist = rand::distributions::WeightedIndex::new(weights).unwrap();
        dist.sample(&mut self.inner)
    }
}

} // verus!
