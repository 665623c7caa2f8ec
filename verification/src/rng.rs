use vstd::prelude::*;

use rand::rngs::{SmallRng, ThreadRng};
use rand::{Rng, SeedableRng};

verus! {

/// The small, fast pseudo-random generator of `rand` that drives every
/// generator of this crate.
#[verifier::external_type_specification]
#[verifier::external_body]
pub struct ExSmallRng(rand::rngs::SmallRng);

/// The thread-local, OS-seeded generator of `rand`, used to seed fresh
/// generators.
#[verifier::external_type_specification]
#[verifier::external_body]
pub struct ExThreadRng(rand::rngs::ThreadRng);

/// The error type of `rand`'s seeding functions.
#[verifier::external_type_specification]
#[verifier::external_body]
pub struct ExRandError(rand::Error);

/// Calls `rand::thread_rng`, which hands out the thread-local generator.
/// Nothing is claimed of it: its state comes from the operating system.
#[verifier::external_body]
pub(crate) fn thread_rng_handle() -> ThreadRng {
    rand::thread_rng()
}

/// Calls `SmallRng::from_rng` on the thread-local generator. The claim is that
/// this succeeds: `from_rng` fails only when the source's `try_fill_bytes`
/// fails, and `ThreadRng::try_fill_bytes` forwards to a block generator whose
/// `try_fill_bytes` always returns `Ok` (rand 0.8, `rngs/thread.rs`,
/// rand_core 0.6, `block.rs`). Nothing is claimed of the seeded state.
#[verifier::external_body]
pub(crate) fn small_rng_from_thread_rng(source: ThreadRng) -> (r: Result<SmallRng, rand::Error>)
    ensures
        r is Ok,
{
    SmallRng::from_rng(source)
}

/// Whether `rng` is a state that the seeding call below can return for
/// `seed`: it came from `SmallRng::seed_from_u64` applied to that seed.
pub closed spec fn seeded_from(rng: SmallRng, seed: u64) -> bool {
    call_ensures(small_rng_seed_from_u64, (seed,), rng)
}

/// A state that the seeding call returned for `seed` is seeded from it.
pub(crate) proof fn lemma_seeded_from(rng: SmallRng, seed: u64)
    requires
        call_ensures(small_rng_seed_from_u64, (seed,), rng),
    ensures
        seeded_from(rng, seed),
{
}

/// Calls `SmallRng::seed_from_u64`, which derives the whole state from `seed`.
/// The state is opaque here, so nothing is claimed of it; callers state that
/// their generator holds what this call returned for their seed
/// (`seeded_from`).
#[verifier::external_body]
pub(crate) fn small_rng_seed_from_u64(seed: u64) -> SmallRng {
    SmallRng::seed_from_u64(seed)
}

/// Calls `Rng::gen_range` with the inclusive range `low..=high`. `rand`
/// documents that the sample lies in the range, and panics on an empty range,
/// which `requires` leaves out. Which value comes depends on the generator's
/// state, so nothing more is claimed.
#[verifier::external_body]
pub(crate) fn sample_inclusive(rng: &mut SmallRng, low: i128, high: i128) -> (r: i128)
    requires
        low <= high,
    ensures
        low <= r <= high,
{
    rng.gen_range(low..=high)
}

/// Calls `Rng::gen_ratio`, which is `true` with probability
/// `numerator / denominator`. `Bernoulli::from_ratio` rejects (and
/// `gen_ratio` then panics on) a zero denominator or a numerator above it,
/// which `requires` leaves out; a ratio of one always samples `true` and a
/// zero numerator always `false` (rand 0.8, `distributions/bernoulli.rs`).
#[verifier::external_body]
pub(crate) fn sample_ratio(rng: &mut SmallRng, numerator: u32, denominator: u32) -> (r: bool)
    requires
        0 < denominator,
        numerator <= denominator,
    ensures
        numerator == 0 ==> !r,
        numerator == denominator ==> r,
{
    rng.gen_ratio(numerator, denominator)
}

} // verus!
