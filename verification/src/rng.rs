//! The source of randomness for the simulation.
//!
//! A `RandomSource` is either a seeded pseudo-random generator (the `rand`
//! crate's standard generator, reached only through the trusted wrappers
//! below) or a constant source that repeats one fixed unit-interval value —
//! the latter exists so that callers can drive the update engine with a
//! known decision sequence.

use vstd::prelude::*;
use crate::floatbits::UNIT_ONE_BITS;
use crate::floatbits::unit_bits_from_draw;

verus! {

#[verifier::external_type_specification]
#[verifier::external_body]
pub struct ExStdRng(rand::rngs::StdRng);

/// Relies on `rand::SeedableRng::seed_from_u64`: builds the standard
/// generator from a 64-bit seed.
#[verifier::external_body]
fn stdrng_from_seed(seed: u64) -> (r: rand::rngs::StdRng) {
    <rand::rngs::StdRng as rand::SeedableRng>::seed_from_u64(seed)
}

/// Relies on `rand::RngCore::next_u64`: the generator's next 64-bit
/// output. Nothing is assumed of the value.
#[verifier::external_body]
fn stdrng_next_u64(rng: &mut rand::rngs::StdRng) -> (r: u64) {
    rand::Rng::next_u64(rng)
}

/// Relies on `rand::RngExt::random_range` over `0..2`, which returns a
/// value of that (nonempty) range, uniformly.
#[verifier::external_body]
fn stdrng_binary(rng: &mut rand::rngs::StdRng) -> (r: u64)
    ensures
        r == 0 || r == 1,
{
    rand::RngExt::random_range(rng, 0..2u64)
}

/// A random-value source, exclusively owned and threaded through every
/// operation that consumes randomness.
pub enum RandomSource {
    /// A seeded pseudo-random generator.
    Seeded { rng: rand::rngs::StdRng },
    /// A source whose every unit-interval draw is the same fixed value
    /// (given by its bit pattern), and whose every spin draw is `+1`.
    ConstantUnit { bits: u64 },
}

impl RandomSource {
    /// A constant source must hold the pattern of a value in `[0, 1)`.
    pub open spec fn wf(&self) -> bool {
        match *self {
            RandomSource::Seeded { .. } => true,
            RandomSource::ConstantUnit { bits } => bits < UNIT_ONE_BITS,
        }
    }

    pub open spec fn is_constant(&self) -> bool {
        matches!(*self, RandomSource::ConstantUnit { .. })
    }

    /// The fixed unit-interval pattern of a constant source.
    pub open spec fn constant_bits(&self) -> u64 {
        match *self {
            RandomSource::Seeded { .. } => 0,
            RandomSource::ConstantUnit { bits } => bits,
        }
    }

    /// A pseudo-random source seeded from the given 64-bit seed.
    pub fn from_seed(seed: u64) -> (r: RandomSource)
        ensures
            r.wf(),
            !r.is_constant(),
    {
        RandomSource::Seeded { rng: stdrng_from_seed(seed) }
    }

    /// A source that always draws the unit-interval value whose bit
    /// pattern is `bits`.
    pub fn constant_unit(bits: u64) -> (r: RandomSource)
        requires
            bits < UNIT_ONE_BITS,
        ensures
            r.wf(),
            r.is_constant(),
            r.constant_bits() == bits,
    {
        RandomSource::ConstantUnit { bits }
    }

    /// Draws one uniform value in `[0, 1)`, returned as its bit pattern:
    /// on a seeded source, the double `m * 2^-53` for a fresh 53-bit `m`.
    /// A constant source is left unchanged and yields its fixed pattern.
    pub fn next_unit_bits(&mut self) -> (r: u64)
        requires
            old(self).wf(),
        ensures
            final(self).wf(),
            r < UNIT_ONE_BITS,
            final(self).is_constant() == old(self).is_constant(),
            final(self).constant_bits() == old(self).constant_bits(),
            old(self).is_constant() ==> *final(self) == *old(self) && r == old(self).constant_bits(),
    {
        match self {
            RandomSource::Seeded { rng } => {
                let u = stdrng_next_u64(rng);
                unit_bits_from_draw(u)
            },
            RandomSource::ConstantUnit { bits } => *bits,
        }
    }

    /// Draws one spin, `-1` or `+1`, each with probability one half on a
    /// seeded source (a binary draw mapped `0` to `-1`, `1` to `+1`). A
    /// constant source is left unchanged and yields `+1`.
    pub fn next_spin(&mut self) -> (r: i8)
        requires
            old(self).wf(),
        ensures
            final(self).wf(),
            r == -1 || r == 1,
            final(self).is_constant() == old(self).is_constant(),
            final(self).constant_bits() == old(self).constant_bits(),
            old(self).is_constant() ==> *final(self) == *old(self) && r == 1,
    {
        match self {
            RandomSource::Seeded { rng } => {
                let b = stdrng_binary(rng);
                if b == 1 { 1 } else { -1 }
            },
            RandomSource::ConstantUnit { .. } => 1,
        }
    }
}

} // verus!
