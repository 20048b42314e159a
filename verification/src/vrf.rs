//! Lottery selection from a verified random value.

use vstd::prelude::*;

verus! {

/// Derives winner positions from randomness that the host's randomness
/// engine has already generated and finalized.
pub struct VRFEngine;

impl VRFEngine {
    /// Maps a random value onto an index of the entrant pool.
    ///
    /// An empty pool has no entrant to pick, so the index falls back to 0.
    pub fn compute_selection_index(randomness_value: u128, pool_size: u32) -> (index: u32)
        ensures
            pool_size == 0 ==> index == 0,
            pool_size > 0 ==> index == randomness_value % (pool_size as u128),
            pool_size > 0 ==> index < pool_size,
    {
        if pool_size == 0 {
            return 0;
        }
        (randomness_value % (pool_size as u128)) as u32
    }
}

} // verus!
