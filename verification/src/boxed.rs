//! The owning handle to one slot of a pool.
use crate::pool::{Pool, PoolStorage};
use crate::wait::{Answer, Polled};
use core::ops::Deref;
use vstd::prelude::*;

verus! {

/// A slot that has been taken out of its handle: the slot's index and the
/// item stored in it. It owns the item, but nothing gives the slot back when
/// it is dropped: the slot stays reserved until a handle is made of it again
/// and that handle is dropped.
pub struct SlotPtr<T> {
    /// The index of the slot in its pool's storage.
    pub index: usize,
    /// The item stored in the slot.
    pub value: T,
}

/// An item held in a slot of pool `P`.
///
/// The handle owns the item and the slot. When the handle is dropped, the
/// item is dropped first and the slot is released after it.
pub struct Box<P: Pool> {
    item: P::Item,
    slot: <P::Storage as PoolStorage<P::Item>>::Slot,
}

/// What a poll of an asynchronous [`Box::new`] tells its caller.
pub enum PolledBox<P: Pool> {
    /// The allocation is over: with the handle, or with `None` where the
    /// pool was full and the waiter registry was full too.
    Ready(Option<Box<P>>),
    /// The pool is full. The caller takes the item back, registers its waker
    /// in waiter cell `waiter`, suspends, and polls again when woken.
    Pending { waiter: usize, item: P::Item },
}

impl<P: Pool> PolledBox<P> {
    /// What the poll says, without the handle and the item.
    pub open spec fn answer(self) -> Answer {
        match self {
            PolledBox::Ready(Some(b)) => Answer::Granted,
            PolledBox::Ready(None) => Answer::Refused,
            PolledBox::Pending { waiter, item } => Answer::Wait(waiter as int),
        }
    }
}

impl<P: Pool> View for Box<P> {
    type V = P::Item;

    /// The item that the handle holds.
    closed spec fn view(&self) -> P::Item {
        self.item
    }
}

impl<P: Pool> Box<P> {
    /// The index of the slot that the handle owns.
    pub closed spec fn slot_index(&self) -> int {
        <P::Storage as PoolStorage<P::Item>>::slot_index(&self.slot)
    }

    /// Whether `raw` is this handle taken apart: the same slot, the same
    /// item.
    pub open spec fn is_raw(&self, raw: SlotPtr<P::Item>) -> bool {
        raw.index == self.slot_index() && raw.value == self@
    }

    /// Reserves a slot of the pool and puts `item` into it. Returns `None`,
    /// and drops `item`, where no slot is found free.
    pub fn new(item: P::Item) -> (r: Option<Self>)
        ensures
            r matches Some(b) ==> b@ == item && 0 <= b.slot_index() < <P::Storage as PoolStorage<
                P::Item,
            >>::capacity(),
    {
        match P::get().allocate() {
            Some(slot) => Some(Self { item, slot }),
            None => None,
        }
    }

    /// One poll of an asynchronous [`Box::new`]: as
    /// [`PoolStorage::poll_allocate`], with `item` put into the slot where
    /// one is reserved, handed back where the caller has to wait, and
    /// dropped where the allocation fails.
    pub fn poll_new(
        state: &mut <P::Storage as PoolStorage<P::Item>>::Waiting,
        item: P::Item,
    ) -> (r: PolledBox<P>)
        requires
            !(<P::Storage as PoolStorage<P::Item>>::phase(old(state)) is Done),
        ensures
            exists|found: bool, cell: Option<int>|
                {
                    &&& cell matches Some(w) ==> 0 <= w < <P::Storage as PoolStorage<
                        P::Item,
                    >>::waiters()
                    &&& (<P::Storage as PoolStorage<P::Item>>::phase(final(state)), r.answer())
                        == <P::Storage as PoolStorage<P::Item>>::phase(old(state)).poll(found, cell)
                },
            r matches PolledBox::Ready(Some(b)) ==> b@ == item && 0 <= b.slot_index() < <
                P::Storage as PoolStorage<P::Item>
            >::capacity(),
            r matches PolledBox::Pending { waiter, item: back } ==> back == item && waiter < <
                P::Storage as PoolStorage<P::Item>
            >::waiters(),
            <P::Storage as PoolStorage<P::Item>>::waiters() == 0 ==> r is Ready,
    {
        let polled = P::get().poll_allocate(state);
        let ghost answer = polled.answer();
        let r = match polled {
            Polled::Ready(Some(slot)) => PolledBox::Ready(Some(Self { item, slot })),
            Polled::Ready(None) => PolledBox::Ready(None),
            Polled::Pending { waiter } => PolledBox::Pending { waiter, item },
        };
        assert(r.answer() == answer);
        r
    }

    /// Takes the handle apart without dropping the item or releasing the
    /// slot.
    pub fn into_raw(b: Self) -> (raw: SlotPtr<P::Item>)
        ensures
            b.is_raw(raw),
            raw.index < <P::Storage as PoolStorage<P::Item>>::capacity(),
    {
        let Box { item, slot } = b;
        SlotPtr { index: <P::Storage as PoolStorage<P::Item>>::into_raw(slot), value: item }
    }

    /// Makes a handle of a slot that [`Box::into_raw`] took out of one. Each
    /// such slot is to be made a handle of once.
    pub fn from_raw(raw: SlotPtr<P::Item>) -> (b: Self)
        requires
            raw.index < <P::Storage as PoolStorage<P::Item>>::capacity(),
        ensures
            b.is_raw(raw),
    {
        let SlotPtr { index, value } = raw;
        Self { item: value, slot: P::get().from_raw(index) }
    }

    /// The item, to change it in place.
    pub fn deref_mut(&mut self) -> (r: &mut P::Item)
        ensures
            *r == old(self)@,
            final(self)@ == *final(r),
            final(self).slot_index() == old(self).slot_index(),
    {
        &mut self.item
    }
}

impl<P: Pool> Deref for Box<P> {
    type Target = P::Item;

    fn deref(&self) -> (r: &P::Item)
        ensures
            *r == self@,
    {
        &self.item
    }
}

/// Taking a handle apart and making a handle of the parts gives a handle to
/// the same slot with the same contents.
pub proof fn lemma_raw_round_trip<P: Pool>(b: Box<P>, raw: SlotPtr<P::Item>, back: Box<P>)
    requires
        b.is_raw(raw),
        back.is_raw(raw),
    ensures
        back@ == b@,
        back.slot_index() == b.slot_index(),
{
}

} // verus!
