//! The single seedable source of randomness. Every draw the simulation
//! makes goes through [`GameRng::roll`], whose contract promises only the
//! range of the result, so all callers are verified for every outcome.
use vstd::prelude::*;
use rand::RngExt;
use rand::SeedableRng;

verus! {

#[verifier::external_type_specification]
#[verifier::external_body]
pub struct ExStdRng(rand::rngs::StdRng);

/// A deterministic pseudo-random generator seeded once at startup, so a
/// run can be replayed by reusing its seed.
pub struct GameRng {
    inner: rand::rngs::StdRng,
}

impl GameRng {
    /// Relies on `rand::rngs::StdRng` and `SeedableRng::seed_from_u64`
    /// to build a generator from a 64-bit seed; nothing about the
    /// stream it will produce is assumed.
    #[verifier::external_body]
    pub fn from_seed(seed: u64) -> GameRng {
        GameRng { inner: rand::rngs::StdRng::seed_from_u64(seed) }
    }

    /// Relies on `rand::RngExt::random_range` over an inclusive `i64`
    /// range: it panics only on an empty range, which the precondition
    /// rules out, and returns a value inside the range.
    #[verifier::external_body]
    pub fn roll(&mut self, lo: i64, hi: i64) -> (r: i64)
        requires
            lo <= hi,
        ensures
            lo <= r <= hi,
    {
        self.inner.random_range(lo..=hi)
    }
}

} // verus!
