//! A seeded deterministic random source.
//!
//! The engines draw every random value through this module.  The underlying
//! stream cipher generator is deterministic and portable: for a fixed seed,
//! the value of each draw is a pure function of the seed and of the draws
//! made before it (each draw advances the stream by an amount that depends
//! only on the kind of draw and its arguments).  The two uninterpreted
//! functions below give those values names, so that every contract built on
//! them pins its result for fixed seed and inputs.

use vstd::prelude::*;

use rand::Rng;
use rand::SeedableRng;
use rand::distr::Distribution;

verus! {

#[verifier::external_type_specification]
#[verifier::external_body]
pub struct ExChaCha8Rng(rand_chacha::ChaCha8Rng);

/// The value of a uniform draw below `bound`, as a function of the seed and
/// of the log of earlier draws.
pub uninterp spec fn range_draw(seed: u64, log: Seq<Seq<u64>>, bound: u64) -> u64;

/// The index of a weighted draw over `weights`, as a function of the seed
/// and of the log of earlier draws.
pub uninterp spec fn weighted_draw(seed: u64, log: Seq<Seq<u64>>, weights: Seq<u64>) -> usize;

/// The log entry of a uniform draw below `bound`.
pub open spec fn range_event(bound: u64) -> Seq<u64> {
    seq![0u64, bound]
}

/// The log entry of a weighted draw over `weights`.
pub open spec fn weighted_event(weights: Seq<u64>) -> Seq<u64> {
    seq![1u64] + weights
}

/// `range_draw`, clipped below `bound` so that spec functions built on it
/// are total.  At every call of `draw_below` the clip is vacuous.
pub open spec fn pick_below(seed: u64, log: Seq<Seq<u64>>, bound: u64) -> u64 {
    if range_draw(seed, log, bound) < bound {
        range_draw(seed, log, bound)
    } else {
        0
    }
}

/// `weighted_draw`, clipped below the number of weights so that spec
/// functions built on it are total.  At every call of `draw_weighted` the
/// clip is vacuous.
pub open spec fn pick_weighted(seed: u64, log: Seq<Seq<u64>>, weights: Seq<u64>) -> int {
    if (weighted_draw(seed, log, weights) as int) < weights.len() {
        weighted_draw(seed, log, weights) as int
    } else {
        0
    }
}

/// Sum of a sequence of weights.
pub open spec fn weight_sum(weights: Seq<u64>) -> int
    decreases weights.len(),
{
    if weights.len() == 0 {
        0
    } else {
        weight_sum(weights.drop_last()) + weights.last()
    }
}

/// Relies on `rand_chacha::ChaCha8Rng::seed_from_u64`: builds the
/// deterministic, portable generator for this seed.
#[verifier::external_body]
fn chacha_from_seed(seed: u64) -> rand_chacha::ChaCha8Rng {
    rand_chacha::ChaCha8Rng::seed_from_u64(seed)
}

/// A deterministic random source seeded with a 64-bit value.
///
/// `seed` and `log` mirror everything that determines the underlying
/// stream: the seed it was created from and the draws made so far.
pub struct SeedRng {
    rng: rand_chacha::ChaCha8Rng,
    seed: u64,
    log: Ghost<Seq<Seq<u64>>>,
}

impl SeedRng {
    /// The seed this source was created from.
    pub closed spec fn seed(self) -> u64 {
        self.seed
    }

    /// The draws made so far, newest last.
    pub closed spec fn draws(self) -> Seq<Seq<u64>> {
        self.log@
    }

    /// Create a source from a 64-bit seed, with an empty draw log.
    pub fn new(seed: u64) -> (r: SeedRng)
        ensures
            r.seed() == seed,
            r.draws() == Seq::<Seq<u64>>::empty(),
    {
        SeedRng { rng: chacha_from_seed(seed), seed, log: Ghost(Seq::empty()) }
    }

    /// Relies on `rand::Rng::random_range` over `0..bound`: returns a value
    /// below `bound`; for this generator the value is a pure function of
    /// the seed and the draws made before.
    #[verifier::external_body]
    pub fn draw_below(&mut self, bound: u64) -> (r: u64)
        requires
            bound >= 1,
        ensures
            r < bound,
            r == range_draw(old(self).seed(), old(self).draws(), bound),
            final(self).seed() == old(self).seed(),
            final(self).draws() == old(self).draws().push(range_event(bound)),
    {
        self.rng.random_range(0..bound)
    }

    /// Relies on `rand::distr::weighted::WeightedIndex` (`new` and
    /// `sample`): over non-negative integer weights with a positive sum
    /// that fits the weight type, `new` succeeds, and `sample` returns an
    /// index whose weight is never zero; for this generator the index is a
    /// pure function of the seed, the draws made before, and the weights.
    #[verifier::external_body]
    pub fn draw_weighted(&mut self, weights: &Vec<u64>) -> (r: usize)
        requires
            weights.len() >= 1,
            0 < weight_sum(weights@) <= u64::MAX,
        ensures
            r < weights.len(),
            weights[r as int] > 0,
            r == weighted_draw(old(self).seed(), old(self).draws(), weights@),
            final(self).seed() == old(self).seed(),
            final(self).draws() == old(self).draws().push(weighted_event(weights@)),
    {
        let dist = rand::distr::weighted::WeightedIndex::new(weights.iter().copied()).unwrap();
        dist.sample(&mut self.rng)
    }
}

} // verus!
