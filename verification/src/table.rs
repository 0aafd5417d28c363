//! The Metropolis acceptance table: for a fixed inverse temperature `beta`,
//! the nine acceptance probabilities `exp(-2 * beta * k)` for the local
//! energy-change classes `k` in `-4 ..= 4`, stored at index `k + 4`.
//!
//! Probabilities are held as IEEE 754 bit patterns. The exponentials
//! themselves are floating-point work that cannot stand in verified code,
//! so the caller hands the nine patterns in; the table and every consumer
//! of an entry are verified for every value an entry might hold (an entry
//! above `1.0` simply behaves as "always accept" in the `r < p` test).

use vstd::prelude::*;

verus! {

/// The nine Metropolis acceptance probabilities for one inverse
/// temperature, indexed by energy class `k + 4`; immutable once built.
pub struct AcceptanceTable {
    probs: Vec<u64>,
}

impl View for AcceptanceTable {
    type V = Seq<u64>;

    closed spec fn view(&self) -> Seq<u64> {
        self.probs@
    }
}

impl AcceptanceTable {
    /// A table holds exactly one probability per energy class in `-4 ..= 4`.
    pub open spec fn wf(&self) -> bool {
        self@.len() == 9
    }

    /// A table with the given nine probability patterns: entry `k + 4`
    /// is the acceptance probability for energy class `k`.
    pub fn from_bits(bits: Vec<u64>) -> (t: AcceptanceTable)
        requires
            bits@.len() == 9,
        ensures
            t.wf(),
            t@ == bits@,
    {
        AcceptanceTable { probs: bits }
    }

    /// The acceptance probability (as a bit pattern) for energy class `k`.
    pub fn probability(&self, k: i8) -> (r: u64)
        requires
            self.wf(),
            -4 <= k <= 4,
        ensures
            r == self@[k + 4],
    {
        self.probs[(k + 4) as usize]
    }
}

} // verus!
