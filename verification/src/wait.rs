//! The progress of an asynchronous allocation.
//!
//! A caller that finds the pool full may park: it reserves a cell of the
//! waiter registry, leaves its waker there and suspends until a slot is
//! given back. Suspending, waking and the wakers themselves belong to the
//! task's executor. What is decided here is the rest: given where an
//! allocation stands and what its attempts found, where it stands next and
//! what its caller has to do.
use crate::atomic_bitset::droppable_bit::DroppableBit;
use vstd::prelude::*;

verus! {

/// Where an asynchronous allocation stands, for a waiter registry of `WN`
/// cells in `WK` words. While the allocation is parked, the state holds the
/// guard of its waiter cell; dropping the state drops the guard, so an
/// allocation that is abandoned while parked gives its cell back.
pub enum AllocState<'a, const WN: usize, const WK: usize> {
    /// Not polled yet.
    Start,
    /// Polled, found the pool full, and registered in the waiter cell that
    /// the guard holds.
    Parked(DroppableBit<'a, WN, WK>),
    /// Finished: the last poll returned [`Polled::Ready`].
    Done,
}

/// What a poll tells its caller.
pub enum Polled<S> {
    /// The allocation is over: with the reserved slot, or with `None` where
    /// the pool was full and the waiter registry was full too.
    Ready(Option<S>),
    /// The pool is full. The caller registers its waker in waiter cell
    /// `waiter`, suspends, and polls again when woken.
    Pending { waiter: usize },
}

/// Where an allocation stands, with the index of its waiter cell in place of
/// the guard.
pub enum Phase {
    Start,
    Parked(int),
    Done,
}

/// What a poll answers, without the slot.
pub enum Answer {
    /// Ready, with a slot.
    Granted,
    /// Ready, with nothing.
    Refused,
    /// Pending, registered in this waiter cell.
    Wait(int),
}

impl<'a, const WN: usize, const WK: usize> AllocState<'a, WN, WK> {
    /// Where the allocation stands, with the guard given by the index of its
    /// cell.
    pub open spec fn phase(self) -> Phase {
        match self {
            AllocState::Start => Phase::Start,
            AllocState::Parked(guard) => Phase::Parked(guard.index() as int),
            AllocState::Done => Phase::Done,
        }
    }
}

impl<S> Polled<S> {
    /// What the poll answers, without the slot.
    pub open spec fn answer(self) -> Answer {
        match self {
            Polled::Ready(Some(slot)) => Answer::Granted,
            Polled::Ready(None) => Answer::Refused,
            Polled::Pending { waiter } => Answer::Wait(waiter as int),
        }
    }
}

impl Phase {
    /// One poll. `found` tells whether the attempt to reserve a slot
    /// succeeded. `cell` is what the attempt to reserve a waiter cell found;
    /// that attempt is made only by a poll that starts in `Start` and finds
    /// no slot, and is disregarded otherwise.
    ///
    /// | from        | found | cell      | to          | answer    |
    /// |-------------|-------|-----------|-------------|-----------|
    /// | `Start`     | yes   |           | `Done`      | `Granted` |
    /// | `Start`     | no    | `Some(w)` | `Parked(w)` | `Wait(w)` |
    /// | `Start`     | no    | `None`    | `Done`      | `Refused` |
    /// | `Parked(w)` | yes   |           | `Done`      | `Granted` |
    /// | `Parked(w)` | no    |           | `Parked(w)` | `Wait(w)` |
    ///
    /// A finished allocation is not to be polled; it is given as staying
    /// finished with nothing.
    pub open spec fn poll(self, found: bool, cell: Option<int>) -> (Phase, Answer) {
        match self {
            Phase::Done => (Phase::Done, Answer::Refused),
            Phase::Parked(w) => if found {
                (Phase::Done, Answer::Granted)
            } else {
                (Phase::Parked(w), Answer::Wait(w))
            },
            Phase::Start => if found {
                (Phase::Done, Answer::Granted)
            } else {
                match cell {
                    Some(w) => (Phase::Parked(w), Answer::Wait(w)),
                    None => (Phase::Done, Answer::Refused),
                }
            },
        }
    }
}

/// The first half of a poll: what the poll does once the attempt to reserve a
/// slot has returned `slot`.
///
/// With a slot the allocation is over: the state becomes `Done`, which gives
/// back the waiter cell of a parked allocation, and the answer is the slot.
/// Without one, a parked allocation stays parked in its cell and the answer
/// is to wait there. Without one and not parked, nothing is decided yet:
/// the result is `None`, and the caller goes on to
/// [`after_cell_attempt`].
pub fn after_slot_attempt<'a, S, const WN: usize, const WK: usize>(
    state: &mut AllocState<'a, WN, WK>,
    slot: Option<S>,
) -> (r: Option<Polled<S>>)
    requires
        !(old(state).phase() is Done),
    ensures
        slot matches Some(s) ==> r == Some(Polled::<S>::Ready(Some(s))) && final(state).phase()
            == Phase::Done,
        slot is None && old(state).phase() is Parked ==> *final(state) == *old(state) && (r matches Some(
            Polled::Pending { waiter },
        ) && Phase::Parked(waiter as int) == old(state).phase()),
        slot is None && old(state).phase() is Start ==> r is None && final(state).phase() is Start,
        r matches Some(polled) ==> (final(state).phase(), polled.answer()) == old(
            state,
        ).phase().poll(slot is Some, None),
        r matches Some(Polled::Pending { waiter }) ==> waiter < WN,
{
    match slot {
        Some(s) => {
            *state = AllocState::Done;
            Some(Polled::Ready(Some(s)))
        },
        None => match state {
            AllocState::Parked(guard) => {
                let waiter: usize = guard.inner();
                Some(Polled::Pending { waiter })
            },
            _ => None,
        },
    }
}

/// The second half of a poll, for an allocation that is not parked and found
/// no slot: what the poll does once the attempt to reserve a waiter cell has
/// returned `cell`.
///
/// With a cell the allocation parks: the state takes the cell's guard and the
/// answer is to wait in that cell. Without one the allocation is over with
/// nothing.
pub fn after_cell_attempt<'a, S, const WN: usize, const WK: usize>(
    state: &mut AllocState<'a, WN, WK>,
    cell: Option<DroppableBit<'a, WN, WK>>,
) -> (r: Polled<S>)
    requires
        old(state).phase() is Start,
    ensures
        (final(state).phase(), r.answer()) == old(state).phase().poll(
            false,
            match cell {
                Some(guard) => Some(guard.index() as int),
                None => None,
            },
        ),
        cell matches Some(guard) ==> *final(state) == AllocState::Parked(guard),
        r matches Polled::Pending { waiter } ==> waiter < WN,
        r matches Polled::Ready(slot) ==> slot is None,
{
    match cell {
        Some(guard) => {
            let waiter: usize = guard.inner();
            *state = AllocState::Parked(guard);
            Polled::Pending { waiter }
        },
        None => {
            *state = AllocState::Done;
            Polled::Ready(None)
        },
    }
}

/// A registry without cells never parks anyone: where no waiter cell can be
/// had, a poll of an allocation that is not parked is answered at once, with
/// a slot or with nothing, and ends the allocation.
pub proof fn lemma_no_cell_no_wait(phase: Phase, found: bool)
    requires
        !(phase is Parked),
    ensures
        !(phase.poll(found, None).1 is Wait),
        phase.poll(found, None).0 is Done,
{
}

/// A parked allocation keeps its cell until it gets a slot, and is never
/// turned away: each poll either ends it with a slot or leaves it parked in
/// the same cell.
pub proof fn lemma_parked_keeps_cell(w: int, found: bool, cell: Option<int>)
    ensures
        Phase::Parked(w).poll(found, cell) == if found {
            (Phase::Done, Answer::Granted)
        } else {
            (Phase::Parked(w), Answer::Wait(w))
        },
{
}

} // verus!
