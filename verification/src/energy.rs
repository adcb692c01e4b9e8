//! Energies: whole numbers that stop at the top of their range.

use vstd::prelude::*;

verus! {

/// One energy per band, in band order.
pub type EnergyVector = Vec<u64>;

/// A sum as an energy: itself where it fits, the largest energy where it does
/// not, the way a floating-point sum stops at infinity.
pub open spec fn saturated(total: int) -> u64 {
    if total > u64::MAX {
        u64::MAX
    } else {
        total as u64
    }
}

/// Adding a term to a sum that was cut at the top gives the whole sum cut at
/// the top.
pub proof fn lemma_saturated_step(total: int, term: int)
    requires
        0 <= total,
        0 <= term <= u64::MAX,
    ensures
        saturated(saturated(total) + term) == saturated(total + term),
{
}

} // verus!
