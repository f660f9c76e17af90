//! A reserved index that releases itself.
use crate::atomic_bitset::AtomicBitset;
use vstd::prelude::*;

verus! {

/// `core::mem::forget` takes its argument and returns without running the
/// argument's destructor. It returns nothing, and nothing is claimed of it.
pub assume_specification<T>[ core::mem::forget::<T> ](t: T);

/// One reserved index of a bitset. Dropping the guard releases the index, so
/// a reservation held by an operation that is abandoned half way is not lost.
pub struct DroppableBit<'a, const N: usize, const K: usize> {
    bitset: &'a AtomicBitset<N, K>,
    inner: usize,
}

impl<'a, const N: usize, const K: usize> DroppableBit<'a, N, K> {
    #[verifier::type_invariant]
    spec fn in_range(self) -> bool {
        self.inner < N
    }

    /// The index that the guard holds.
    pub closed spec fn index(&self) -> usize {
        self.inner
    }

    /// The bitset to which the guard is bound: the one in which it releases
    /// its index when it is dropped.
    pub closed spec fn bitset(&self) -> &'a AtomicBitset<N, K> {
        self.bitset
    }

    /// Takes over index `inner` of `bitset`, which the caller has reserved
    /// and holds no other guard for.
    pub fn new(bitset: &'a AtomicBitset<N, K>, inner: usize) -> (bit: Self)
        requires
            inner < N,
        ensures
            bit.index() == inner,
            bit.bitset() == bitset,
    {
        Self { bitset, inner }
    }

    pub fn inner(&self) -> (i: usize)
        ensures
            i == self.index(),
            i < N,
    {
        proof {
            use_type_invariant(self);
        }
        self.inner
    }

    /// Gives up the guard without releasing the index, which stays reserved.
    pub fn into_inner(self) -> (i: usize)
        ensures
            i == self.index(),
            i < N,
    {
        proof {
            use_type_invariant(&self);
        }
        let i: usize = self.inner;
        core::mem::forget(self);
        i
    }
}

impl<const N: usize, const K: usize> Drop for DroppableBit<'_, N, K> {
    fn drop(&mut self)
        opens_invariants none
        no_unwind
    {
        proof {
            use_type_invariant(&*self);
        }
        let bitset: &AtomicBitset<N, K> = self.bitset;
        let _ = bitset.free(self.inner);
    }
}

} // verus!
