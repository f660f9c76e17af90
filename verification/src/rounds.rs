//! Filling a bitset to its capacity, draining it, and filling it again.
use crate::model::{lemma_allocate_one, lemma_release_step, Bitmap};
use vstd::prelude::*;

verus! {

impl Bitmap {
    /// The map after `k` allocations in a row.
    pub open spec fn allocate_times(self, k: int) -> Bitmap
        decreases k,
    {
        if k <= 0 {
            self
        } else {
            self.allocate_times(k - 1).allocate_one().0
        }
    }

    /// The map after the indices below `k` have been released, lowest first.
    pub open spec fn release_below(self, k: int) -> Bitmap
        decreases k,
    {
        if k <= 0 {
            self
        } else {
            self.release_below(k - 1).release(k - 1)
        }
    }
}

/// Starting with nothing reserved, allocation number `k` (counted from zero)
/// returns index `k`, for every `k` below the capacity: all indices come out,
/// each once, whatever the capacity and however many words it spans. After
/// as many allocations as the capacity, every index is reserved and a
/// further allocation returns nothing.
pub proof fn lemma_fill(s: Bitmap, k: int)
    requires
        s.well_formed(),
        s.is_empty(),
        0 <= k <= s.capacity,
    ensures
        s.allocate_times(k).well_formed(),
        s.allocate_times(k).capacity == s.capacity,
        forall|j: int| #[trigger] s.allocate_times(k).contains(j) <==> 0 <= j < k,
        k < s.capacity ==> s.allocate_times(k).allocate_one().1 == Some(k),
        k == s.capacity ==> s.allocate_times(k).is_full() && s.allocate_times(
            k,
        ).allocate_one().1 is None,
    decreases k,
{
    let t = s.allocate_times(k);
    if k > 0 {
        lemma_fill(s, k - 1);
        lemma_allocate_one(s.allocate_times(k - 1));
    }
    lemma_allocate_one(t);
    match t.allocate_one().1 {
        Some(i) => {
            if i < k {
                assert(t.contains(i));
            }
            if i > k {
                assert(t.contains(k));
            }
        },
        None => {
            if k < s.capacity {
                assert(t.contains(k));
            }
        },
    }
}

/// Releasing the indices below `k` frees them and leaves the others as they
/// were.
pub proof fn lemma_drain(s: Bitmap, k: int)
    requires
        s.well_formed(),
        0 <= k <= s.capacity,
    ensures
        s.release_below(k).well_formed(),
        s.release_below(k).capacity == s.capacity,
        forall|j: int| #[trigger] s.release_below(k).contains(j) <==> (s.contains(j) && k <= j),
    decreases k,
{
    if k > 0 {
        lemma_drain(s, k - 1);
        lemma_release_step(s.release_below(k - 1), k - 1);
    }
}

/// Allocating to capacity, freeing everything and allocating to capacity
/// again succeeds in both rounds: in each, allocation number `k` returns
/// index `k`.
pub proof fn lemma_exhaust_and_refill(s: Bitmap, k: int)
    requires
        s.well_formed(),
        s.is_empty(),
        0 <= k < s.capacity,
    ensures
        s.allocate_times(k).allocate_one().1 == Some(k),
        s.allocate_times(s.capacity).allocate_one().1 is None,
        s.allocate_times(s.capacity).release_below(s.capacity).is_empty(),
        s.allocate_times(s.capacity).release_below(s.capacity).allocate_times(k).allocate_one().1
            == Some(k),
        s.allocate_times(s.capacity).release_below(s.capacity).allocate_times(
            s.capacity,
        ).allocate_one().1 is None,
{
    lemma_fill(s, k);
    lemma_fill(s, s.capacity);
    let full = s.allocate_times(s.capacity);
    lemma_drain(full, s.capacity);
    let drained = full.release_below(s.capacity);
    lemma_fill(drained, k);
    lemma_fill(drained, s.capacity);
}

} // verus!
