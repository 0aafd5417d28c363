//! A verified 2-D Ising model simulator: a periodic square lattice of
//! spins in `{-1, +1}`, evolved in place by single-spin-flip Metropolis
//! Monte Carlo updates driven by a seeded random source.
//!
//! Floating-point values — the acceptance probabilities `exp(-2*beta*k)`
//! and the uniform draws in `[0, 1)` — are carried through the library as
//! their IEEE 754 bit patterns, so the whole update rule is verified
//! integer code: the strict-less-than order on doubles is implemented on
//! the patterns and proved against its spec, and the uniform draw is
//! encoded from a raw 64-bit draw by a verified normalizer. The
//! exponentials themselves are floating-point work that verified code
//! cannot hold; callers hand the nine table entries in, and everything
//! the library does with them is proved for every value they might take.
//!
//! The unverified remainder is small: three wrappers around the `rand`
//! crate (seeding, one 64-bit draw, one binary draw) whose contracts say
//! no more than `rand`'s documentation does.

pub mod engine;
pub mod floatbits;
pub mod lattice;
pub mod render;
pub mod rng;
pub mod table;

pub use engine::SweepEngine;
pub use floatbits::f64_bits_lt;
pub use floatbits::unit_bits_from_draw;
pub use floatbits::UNIT_ONE_BITS;
pub use lattice::ising2d_sum_of_adjacent_spins;
pub use lattice::IsingError;
pub use lattice::Lattice;
pub use render::render_pbm;
pub use rng::RandomSource;
pub use table::AcceptanceTable;
