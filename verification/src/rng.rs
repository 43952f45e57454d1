//! The randomness the automaton consumes: uniform draws below a bound.
//!
//! A `TickRng` is either a seeded pseudo-random generator (the normal case)
//! or a forced source whose every gate passes and whose every pick is the
//! first candidate, which makes a tick fully deterministic for tests and
//! worked examples.

use vstd::prelude::*;

verus! {

#[verifier::external_type_specification]
#[verifier::external_body]
pub struct ExStdRng(rand::rngs::StdRng);

/// Relies on `rand::Rng::gen_range` over `0..n`: the draw is uniform in that
/// range, so in particular below `n`; the call panics only on an empty
/// range, which `n >= 1` rules out.
#[verifier::external_body]
fn draw_below(rng: &mut rand::rngs::StdRng, n: u32) -> (r: u32)
    requires
        n >= 1,
    ensures
        r < n,
{
    rand::Rng::gen_range(rng, 0..n)
}

/// Relies on `rand::SeedableRng::seed_from_u64`: builds a generator from a
/// seed.
#[verifier::external_body]
fn rng_from_seed(seed: u64) -> rand::rngs::StdRng {
    rand::SeedableRng::seed_from_u64(seed)
}

/// The random source that drives one automaton tick.
pub enum TickRng {
    /// Draws come from a seeded pseudo-random generator.
    Seeded(rand::rngs::StdRng),
    /// Every probability gate passes and every pick takes the first
    /// candidate.
    Forced,
}

impl TickRng {
    /// A pseudo-random source seeded for reproducibility.
    pub fn from_seed(seed: u64) -> (r: TickRng)
        ensures
            r is Seeded,
    {
        TickRng::Seeded(rng_from_seed(seed))
    }

    /// A source whose every gate passes, for deterministic settling.
    pub fn forced() -> (r: TickRng)
        ensures
            r is Forced,
    {
        TickRng::Forced
    }

    /// A probability gate that passes with probability `permille / 1000`
    /// when seeded, and always when forced.
    pub fn gate(&mut self, permille: u32) -> (pass: bool)
        requires
            permille <= 1000,
        ensures
            *old(self) is Forced ==> pass && *final(self) is Forced,
    {
        match self {
            TickRng::Seeded(rng) => draw_below(rng, 1000) < permille,
            TickRng::Forced => true,
        }
    }

    /// A uniform pick of one of `n` candidates: index `0` when forced.
    pub fn pick(&mut self, n: usize) -> (r: usize)
        requires
            1 <= n <= u32::MAX,
        ensures
            r < n,
            *old(self) is Forced ==> r == 0 && *final(self) is Forced,
    {
        match self {
            TickRng::Seeded(rng) => draw_below(rng, n as u32) as usize,
            TickRng::Forced => 0,
        }
    }
}

} // verus!
