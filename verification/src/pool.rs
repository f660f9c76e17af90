//! Pool storage: which slots of a pool are taken, and who waits for one.
use crate::atomic_bitset::droppable_bit::DroppableBit;
use crate::atomic_bitset::AtomicBitset;
use crate::model::Bitmap;
use crate::wait::{after_cell_attempt, after_slot_attempt, AllocState, Phase, Polled};
use core::marker::PhantomData;
use vstd::prelude::*;

verus! {

/// The storage behind a pool of items of type `T`.
///
/// A storage hands out its slots as guards: values that stand for one
/// reserved slot each and give the slot back when they are dropped. It also
/// keeps the registry of callers that wait for a slot.
pub trait PoolStorage<T>: Sized {
    /// One reserved slot. Dropping it releases the slot.
    type Slot;

    /// The state of an asynchronous allocation. Dropping it releases the
    /// waiter cell that the allocation holds, if it holds one.
    type Waiting;

    /// The number of slots.
    spec fn capacity() -> nat;

    /// The number of cells of the waiter registry.
    spec fn waiters() -> nat;

    /// The index of the slot that `slot` stands for.
    spec fn slot_index(slot: &Self::Slot) -> int;

    /// Where the allocation of `state` stands.
    spec fn phase(state: &Self::Waiting) -> Phase;

    /// Whether `slot` is the guard of a slot of this storage, so that
    /// dropping it releases the slot here and nowhere else.
    spec fn owns(&self, slot: &Self::Slot) -> bool;

    /// Reserves a slot, or returns `None` where it finds none free.
    fn allocate(&'static self) -> (r: Option<Self::Slot>)
        ensures
            r matches Some(slot) ==> 0 <= Self::slot_index(&slot) < Self::capacity() && self.owns(
                &slot,
            ),
    ;

    /// The state of an asynchronous allocation that has not been polled.
    fn start() -> (state: Self::Waiting)
        ensures
            Self::phase(&state) == Phase::Start,
    ;

    /// One poll of an asynchronous allocation. It tries to reserve a slot;
    /// where none is free, an allocation that is not parked yet tries to
    /// reserve a waiter cell. The state and the answer follow
    /// [`Phase::poll`] from what the attempts found. A storage without
    /// waiter cells makes nobody wait.
    fn poll_allocate(&'static self, state: &mut Self::Waiting) -> (r: Polled<Self::Slot>)
        requires
            !(Self::phase(old(state)) is Done),
        ensures
            exists|found: bool, cell: Option<int>|
                {
                    &&& cell matches Some(w) ==> 0 <= w < Self::waiters()
                    &&& (Self::phase(final(state)), r.answer()) == Self::phase(old(state)).poll(
                        found,
                        cell,
                    )
                },
            r matches Polled::Ready(Some(slot)) ==> 0 <= Self::slot_index(&slot)
                < Self::capacity() && self.owns(&slot),
            r matches Polled::Pending { waiter } ==> waiter < Self::waiters(),
            Self::waiters() == 0 ==> r is Ready,
    ;

    /// Gives `slot` back. Where the slot was reserved, as it is when its
    /// guard is the only one, the result tells how many cells of the waiter
    /// registry are to be woken now that the slot is free: all of them.
    /// `None` means that the slot was found free already: it has been given
    /// back before, through another guard. Nothing is to be woken then, and
    /// the caller is not to go on.
    fn free(&self, slot: Self::Slot) -> (wake: Option<usize>)
        requires
            self.owns(&slot),
        ensures
            wake matches Some(cells) ==> cells == Self::waiters(),
    ;

    /// Takes the slot out of its guard. The slot stays reserved.
    fn into_raw(slot: Self::Slot) -> (index: usize)
        ensures
            index == Self::slot_index(&slot),
            index < Self::capacity(),
    ;

    /// Puts slot `index` under a guard again. The slot is one that was
    /// reserved and taken out of its guard, and has no other guard.
    fn from_raw(&'static self, index: usize) -> (slot: Self::Slot)
        requires
            index < Self::capacity(),
        ensures
            Self::slot_index(&slot) == index,
            self.owns(&slot),
    ;
}

/// Storage for `N` items of type `T`, with a waiter registry of `WN` cells.
/// `K` and `WK` are the numbers of occupancy words that `N` slots and `WN`
/// cells need.
pub struct PoolStorageImpl<
    T,
    const N: usize,
    const K: usize,
    const WN: usize,
    const WK: usize,
> {
    used: AtomicBitset<N, K>,
    wakers_used: AtomicBitset<WN, WK>,
    _items: PhantomData<T>,
}

impl<T, const N: usize, const K: usize, const WN: usize, const WK: usize> PoolStorageImpl<
    T,
    N,
    K,
    WN,
    WK,
> {
    /// The bitset that tells which slots are taken.
    pub closed spec fn slots(&self) -> &AtomicBitset<N, K> {
        &self.used
    }

    /// The bitset that tells which cells of the waiter registry are taken.
    pub closed spec fn registry(&self) -> &AtomicBitset<WN, WK> {
        &self.wakers_used
    }

    /// The map of the slots with which the storage was made.
    pub closed spec fn initial_slots(&self) -> Bitmap {
        self.used.initial()
    }

    /// The map of the waiter cells with which the storage was made.
    pub closed spec fn initial_waiters(&self) -> Bitmap {
        self.wakers_used.initial()
    }

    /// A storage with every slot and every waiter cell free: both its maps
    /// are made empty.
    pub fn new() -> (s: Self)
        requires
            AtomicBitset::<N, K>::valid_shape(),
            AtomicBitset::<WN, WK>::valid_shape(),
        ensures
            s.initial_slots() == Bitmap::new(N as int),
            s.initial_waiters() == Bitmap::new(WN as int),
            s.initial_slots().is_empty(),
            s.initial_waiters().is_empty(),
    {
        Self { used: AtomicBitset::new(), wakers_used: AtomicBitset::new(), _items: PhantomData }
    }
}

impl<T, const N: usize, const K: usize, const WN: usize, const WK: usize> PoolStorage<
    T,
> for PoolStorageImpl<T, N, K, WN, WK> {
    type Slot = DroppableBit<'static, N, K>;

    type Waiting = AllocState<'static, WN, WK>;

    open spec fn capacity() -> nat {
        N as nat
    }

    open spec fn waiters() -> nat {
        WN as nat
    }

    open spec fn slot_index(slot: &Self::Slot) -> int {
        slot.index() as int
    }

    open spec fn phase(state: &Self::Waiting) -> Phase {
        state.phase()
    }

    open spec fn owns(&self, slot: &Self::Slot) -> bool {
        slot.bitset() == self.slots()
    }

    fn allocate(&'static self) -> (r: Option<Self::Slot>) {
        self.used.allocate_droppable()
    }

    fn start() -> (state: Self::Waiting) {
        AllocState::Start
    }

    fn poll_allocate(&'static self, state: &mut Self::Waiting) -> (r: Polled<Self::Slot>)
        ensures
            *final(state) matches AllocState::Parked(guard) ==> *final(state) == *old(state)
                || guard.bitset() == self.registry(),
    {
        let slot = self.used.allocate_droppable();
        match after_slot_attempt(state, slot) {
            Some(polled) => polled,
            None => {
                let cell = self.wakers_used.allocate_droppable();
                after_cell_attempt(state, cell)
            },
        }
    }

    fn free(&self, slot: Self::Slot) -> (wake: Option<usize>) {
        let n: usize = slot.into_inner();
        if self.used.free(n) {
            Some(WN)
        } else {
            None
        }
    }

    fn into_raw(slot: Self::Slot) -> (index: usize) {
        slot.into_inner()
    }

    fn from_raw(&'static self, index: usize) -> (slot: Self::Slot) {
        DroppableBit::new(&self.used, index)
    }
}

/// The slot to which an offset from the first slot leads: `offset` itself
/// where it lies in `0..capacity`, and no slot otherwise.
pub fn slot_of_offset(offset: isize, capacity: usize) -> (r: Option<usize>)
    ensures
        r == (if 0 <= offset < capacity {
            Some(offset as usize)
        } else {
            None::<usize>
        }),
{
    if offset < 0 {
        None
    } else if offset as usize >= capacity {
        None
    } else {
        Some(offset as usize)
    }
}

/// A pool: a type that stands for one process-wide storage.
pub trait Pool: 'static {
    /// What the pool holds.
    type Item: 'static;

    /// The pool's storage.
    type Storage: PoolStorage<Self::Item>;

    /// The pool's storage: the same one at every call.
    fn get() -> (storage: &'static Self::Storage)
    ;
}

} // verus!
