//! The source of randomness for the simulation.
//!
//! A [`Roller`] owns a seedable pseudorandom generator.  All randomness the
//! simulation consumes flows through the small trusted surface in this
//! module; everything downstream is verified against the bounds stated
//! here, for every value the generator may produce.

use vstd::prelude::*;

use rand::rngs::StdRng;
use rand::Rng;
use rand::RngCore;
use rand::SeedableRng;

verus! {

/// The pseudorandom generator of the `rand` crate that backs a [`Roller`].
/// The value is opaque to verification; only the bounds stated on the
/// wrappers below are known about what it produces.
#[verifier::external_type_specification]
#[verifier::external_body]
pub struct ExStdRng(StdRng);

/// A seedable source of die rolls.
pub struct Roller {
    rng: StdRng,
}

impl Roller {
    /// A roller seeded from operating-system entropy.
    ///
    /// Relies on `rand::SeedableRng::from_os_rng` to produce a freshly
    /// seeded generator.
    #[verifier::external_body]
    pub fn new() -> (r: Roller)
    {
        Roller { rng: StdRng::from_os_rng() }
    }

    /// A roller with a fixed seed; two rollers made from the same seed
    /// produce the same stream within one build of the library.
    ///
    /// Relies on `rand::SeedableRng::seed_from_u64`.
    #[verifier::external_body]
    pub fn from_seed(seed: u64) -> (r: Roller)
    {
        Roller { rng: StdRng::seed_from_u64(seed) }
    }

    /// One raw 64-bit draw from the generator.
    ///
    /// Relies on `rand::RngCore::next_u64`.
    #[verifier::external_body]
    fn next_u64(&mut self) -> (r: u64)
    {
        self.rng.next_u64()
    }

    /// A uniform draw from the inclusive range `min ..= max`.
    ///
    /// Relies on `rand::Rng::random_range`, which panics on an empty
    /// range (hence the precondition) and otherwise returns a value
    /// inside the range.
    #[verifier::external_body]
    pub fn roll(&mut self, min: u32, max: u32) -> (r: u32)
        requires
            min <= max,
        ensures
            min <= r <= max,
    {
        self.rng.random_range(min..=max)
    }

    /// A roll of one die with `die_size` faces.
    pub fn d(&mut self, die_size: u32) -> (r: u32)
        requires
            die_size >= 1,
        ensures
            1 <= r <= die_size,
    {
        self.roll(1, die_size)
    }

    /// An independent roller seeded from this one.  Forking consumes one
    /// draw from the parent stream, so the order of forks fixes the
    /// children's streams; keeping that order fixed keeps a whole run
    /// reproducible from a single seed.
    pub fn fork(&mut self) -> (r: Roller)
    {
        let seed: u64 = self.next_u64();
        Roller::from_seed(seed)
    }
}

} // verus!
