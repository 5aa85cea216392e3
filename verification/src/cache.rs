//! Per-pixel distance cache for progressive refinement.
//!
//! One scalar per output pixel holds the best travel distance found so far
//! along that pixel's ray, or `CACHE_SENTINEL` when no result has
//! accumulated. While the camera is static the cache seeds each new march;
//! when the camera moves every entry is reset to the sentinel.

use vstd::prelude::*;
use crate::march::{CACHE_SENTINEL, FAR_LIMIT, MAX_STEP};

verus! {

/// The per-pixel travel-distance buffer.
pub struct DistanceCache {
    pub values: Vec<i64>,
}

impl DistanceCache {
    /// Every entry is the sentinel or a bounded travel distance.
    pub open spec fn wf(self) -> bool {
        forall|i: int|
            0 <= i < self.values@.len() ==> (#[trigger] self.values@[i] == CACHE_SENTINEL || 0
                <= self.values@[i] <= FAR_LIMIT + MAX_STEP)
    }

    /// A cache of `n` entries, all holding the sentinel.
    pub fn new(n: usize) -> (c: DistanceCache)
        ensures
            c.wf(),
            c.values@.len() == n,
            forall|i: int| 0 <= i < n ==> #[trigger] c.values@[i] == CACHE_SENTINEL,
    {
        let mut values: Vec<i64> = Vec::new();
        while values.len() < n
            invariant
                values@.len() <= n,
                forall|i: int| 0 <= i < values@.len() ==> #[trigger] values@[i] == CACHE_SENTINEL,
            decreases n - values@.len(),
        {
            values.push(CACHE_SENTINEL);
        }
        DistanceCache { values }
    }

    /// Reset every entry to the sentinel.
    pub fn reset(&mut self)
        ensures
            final(self).wf(),
            final(self).values@.len() == old(self).values@.len(),
            forall|i: int|
                0 <= i < old(self).values@.len() ==> #[trigger] final(self).values@[i]
                    == CACHE_SENTINEL,
    {
        let n = self.values.len();
        let fresh = DistanceCache::new(n);
        self.values = fresh.values;
    }

    /// Read the entry for pixel `i`.
    pub fn get(&self, i: usize) -> (v: i64)
        requires
            i < self.values@.len(),
        ensures
            v == self.values@[i as int],
    {
        self.values[i]
    }

    /// Write the refined travel distance for pixel `i`.
    pub fn set_entry(&mut self, i: usize, v: i64)
        requires
            i < old(self).values@.len(),
            v == CACHE_SENTINEL || 0 <= v <= FAR_LIMIT + MAX_STEP,
        ensures
            final(self).values@ == old(self).values@.update(i as int, v),
            old(self).wf() ==> final(self).wf(),
    {
        self.values[i] = v;
    }
}

} // verus!
