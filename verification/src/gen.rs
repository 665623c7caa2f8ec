use vstd::prelude::*;

use rand::rngs::SmallRng;

use crate::rng::{
    lemma_seeded_from, sample_inclusive, sample_ratio, seeded_from, small_rng_from_thread_rng, small_rng_seed_from_u64,
    thread_rng_handle,
};

verus! {

/// One random draw made through a generator: a value drawn from a closed
/// range, or a boolean drawn with odds `numerator / denominator`.
pub enum Sample {
    Range { low: i128, high: i128, value: i128 },
    Ratio { numerator: u32, denominator: u32, outcome: bool },
}

/// The record of a draw of `value` from `low..=high`.
pub open spec fn range_draw(low: int, high: int, value: int) -> Sample {
    Sample::Range { low: low as i128, high: high as i128, value: value as i128 }
}

/// The record of a draw of `outcome` with odds `numerator / denominator`.
pub open spec fn ratio_draw(numerator: int, denominator: int, outcome: bool) -> Sample {
    Sample::Ratio { numerator: numerator as u32, denominator: denominator as u32, outcome }
}

/// `longer` starts with all of `shorter`: the draws of `shorter` were made
/// first, and the rest after them.
pub open spec fn extends(longer: Seq<Sample>, shorter: Seq<Sample>) -> bool {
    &&& shorter.len() <= longer.len()
    &&& forall|i: int| 0 <= i < shorter.len() ==> #[trigger] longer[i] == shorter[i]
}

/// Random value generator with a size parameter.
///
/// The size parameter controls the complexity of generated values
/// (e.g., maximum length of vectors, magnitude of integers). Each draw made
/// through the generator's own methods is recorded, in order, in its
/// history of samples, by which contracts say which draw gave which value.
pub struct Gen {
    rng: SmallRng,
    size: usize,
    log: Ghost<Seq<Sample>>,
    origin: Ghost<Option<u64>>,
}

impl Gen {
    /// The size parameter of the generator.
    pub closed spec fn spec_size(&self) -> usize {
        self.size
    }

    /// The draws made so far through this generator, oldest first.
    pub closed spec fn samples(&self) -> Seq<Sample> {
        self.log@
    }

    /// The seed the generator was made from, or `None` for one seeded from
    /// the thread-local generator.
    pub closed spec fn seed(&self) -> Option<u64> {
        self.origin@
    }

    /// The state of the internal random generator.
    pub closed spec fn spec_rng(&self) -> SmallRng {
        self.rng
    }

    /// Create a new generator with the given size parameter, seeded from the
    /// thread-local generator.
    pub fn new(size: usize) -> (g: Gen)
        ensures
            g.spec_size() == size,
            g.samples() == Seq::<Sample>::empty(),
            g.seed() is None,
    {
        let source = thread_rng_handle();
        match small_rng_from_thread_rng(source) {
            Ok(rng) => Gen { rng, size, log: Ghost(Seq::empty()), origin: Ghost(None) },
            Err(_) => vstd::pervasive::unreached(),
        }
    }

    /// Create a new generator from a specific seed for deterministic replay.
    pub fn from_seed(size: usize, seed: u64) -> (g: Gen)
        ensures
            g.spec_size() == size,
            g.samples() == Seq::<Sample>::empty(),
            g.seed() == Some(seed),
            seeded_from(g.spec_rng(), seed),
    {
        // Called through a value, so that what the call returned for `seed`
        // is recorded (`call_ensures`) and can be stated of the generator.
        let seeding = small_rng_seed_from_u64;
        let rng = seeding(seed);
        proof {
            lemma_seeded_from(rng, seed);
        }
        Gen {
            rng,
            size,
            log: Ghost(Seq::empty()),
            origin: Ghost(Some(seed)),
        }
    }

    /// Returns the size parameter.
    #[verifier::when_used_as_spec(spec_size)]
    pub fn size(&self) -> (r: usize)
        ensures
            r == self.spec_size(),
    {
        self.size
    }

    /// Returns a mutable reference to the internal random generator. What is
    /// done through it becomes the generator's new state; the size parameter
    /// and the history of samples stay as they were.
    pub fn rng(&mut self) -> (r: &mut SmallRng)
        ensures
            *r == old(self).spec_rng(),
            final(self).spec_rng() == *final(r),
            final(self).spec_size() == old(self).spec_size(),
            final(self).samples() == old(self).samples(),
            final(self).seed() == old(self).seed(),
    {
        &mut self.rng
    }

    /// Choose a random element from a non-empty slice: the index is drawn
    /// from `0..=len - 1`.
    pub fn choose_element<'a, T>(&mut self, slice: &'a [T]) -> (r: &'a T)
        requires
            slice@.len() > 0,
        ensures
            exists|i: int|
                0 <= i < slice@.len() && *r == slice@[i] && final(self).samples() == old(
                    self,
                ).samples().push(range_draw(0, slice@.len() - 1, i)),
            final(self).spec_size() == old(self).spec_size(),
            final(self).seed() == old(self).seed(),
    {
        let last: i128 = (slice.len() - 1) as i128;
        let drawn = sample_inclusive(&mut self.rng, 0, last);
        self.log = Ghost(self.log@.push(Sample::Range { low: 0, high: last, value: drawn }));
        let idx = drawn as usize;
        &slice[idx]
    }

    /// Generate a random value between `low` and `high`, both included; the
    /// draw is added to the history.
    pub fn gen_range(&mut self, low: i128, high: i128) -> (r: i128)
        requires
            low <= high,
        ensures
            low <= r <= high,
            final(self).samples() == old(self).samples().push(
                Sample::Range { low, high, value: r },
            ),
            final(self).spec_size() == old(self).spec_size(),
            final(self).seed() == old(self).seed(),
    {
        let r = sample_inclusive(&mut self.rng, low, high);
        self.log = Ghost(self.log@.push(Sample::Range { low, high, value: r }));
        r
    }

    /// Generate a random boolean that is `true` with probability
    /// `numerator / denominator`; the draw is added to the history.
    pub fn gen_ratio(&mut self, numerator: u32, denominator: u32) -> (r: bool)
        requires
            0 < denominator,
            numerator <= denominator,
        ensures
            numerator == 0 ==> !r,
            numerator == denominator ==> r,
            final(self).samples() == old(self).samples().push(
                Sample::Ratio { numerator, denominator, outcome: r },
            ),
            final(self).spec_size() == old(self).spec_size(),
            final(self).seed() == old(self).seed(),
    {
        let r = sample_ratio(&mut self.rng, numerator, denominator);
        self.log = Ghost(self.log@.push(Sample::Ratio { numerator, denominator, outcome: r }));
        r
    }
}

} // verus!
