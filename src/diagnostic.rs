//! The per-frame count of the instances that are drawn.
use vstd::prelude::*;

use crate::dithering::DitheredBuffer;
use crate::scheduler::DitherScheduler;

verus! {

broadcast use vstd::std_specs::hash::group_hash_axioms;

/// The number of instances in the cached buffers of `regions`; a region without a buffer
/// counts as none.
pub open spec fn blade_sum(cache: Map<u64, DitheredBuffer>, regions: Seq<u64>) -> int
    decreases regions.len(),
{
    if regions.len() == 0 {
        0
    } else {
        blade_sum(cache, regions.drop_last()) + if cache.contains_key(regions.last()) {
            cache[regions.last()].positions@.len() as int
        } else {
            0int
        }
    }
}

/// Measures how many instances are drawn in a frame.
pub struct WarblerDiagnosticsPlugin;

impl WarblerDiagnosticsPlugin {
    /// The number of instances of the visible regions, as far as `u64` reaches.
    pub fn measure_blades(scheduler: &DitherScheduler, visible: &Vec<u64>) -> (count: u64)
        ensures
            count as int == if blade_sum(scheduler.cache@, visible@) <= u64::MAX {
                blade_sum(scheduler.cache@, visible@)
            } else {
                u64::MAX as int
            },
    {
        let mut count: u64 = 0;
        let mut k: usize = 0;
        while k < visible.len()
            invariant
                k <= visible@.len(),
                count as int == if blade_sum(scheduler.cache@, visible@.take(k as int))
                    <= u64::MAX {
                    blade_sum(scheduler.cache@, visible@.take(k as int))
                } else {
                    u64::MAX as int
                },
            decreases visible@.len() - k,
        {
            assert(visible@.take(k + 1).drop_last() =~= visible@.take(k as int));
            proof {
                lemma_blade_sum_nonneg(scheduler.cache@, visible@.take(k as int));
            }
            match scheduler.get(visible[k]) {
                Some(buffer) => {
                    count = count.saturating_add(buffer.positions.len() as u64);
                },
                None => {},
            }
            k = k + 1;
        }
        assert(visible@.take(k as int) =~= visible@);
        count
    }
}

proof fn lemma_blade_sum_nonneg(cache: Map<u64, DitheredBuffer>, regions: Seq<u64>)
    ensures
        blade_sum(cache, regions) >= 0,
    decreases regions.len(),
{
    if regions.len() > 0 {
        lemma_blade_sum_nonneg(cache, regions.drop_last());
    }
}

} // verus!
