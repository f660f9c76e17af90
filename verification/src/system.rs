//! The pool as its users see it: the occupancy map together with the live
//! handles, and what holds of them in every state that can be reached.
//!
//! A handle comes into being when a reservation attempt succeeds and refers
//! to the slot that the attempt reserved; it ends when it is dropped, which
//! releases its slot. Nothing else changes the map. The same holds of the
//! waiter registry, whose handles are the guards of parked callers.
use crate::model::{
    lemma_allocate_one, lemma_claim_step, lemma_new, lemma_release_of_free_index,
    lemma_release_step, Bitmap,
};
use vstd::prelude::*;

verus! {

/// The state of a pool at one moment.
pub struct PoolModel {
    /// What the occupancy words hold.
    pub bits: Bitmap,
    /// The slot to which each live handle refers, oldest handle first.
    pub handles: Seq<int>,
}

/// What can happen to a pool.
pub enum Event {
    /// One reservation attempt on word `word`. Where it succeeds, a handle to
    /// the reserved slot is made.
    Attempt { word: int },
    /// The live handle at position `handle` is dropped.
    Drop { handle: int },
}

impl PoolModel {
    /// A new pool: nothing reserved, no handle.
    pub open spec fn new(capacity: int) -> PoolModel {
        PoolModel { bits: Bitmap::new(capacity), handles: Seq::empty() }
    }

    /// The bits that are set are exactly the slots of the live handles, and
    /// no two handles refer to one slot.
    pub open spec fn consistent(self) -> bool {
        &&& self.bits.well_formed()
        &&& self.handles.no_duplicates()
        &&& forall|i: int|
            #![trigger self.bits.contains(i)]
            #![trigger self.handles.contains(i)]
            self.bits.contains(i) <==> self.handles.contains(i)
    }

    /// Whether `event` can happen in this state.
    pub open spec fn enabled(self, event: Event) -> bool {
        match event {
            Event::Attempt { word } => 0 <= word < self.bits.words.len(),
            Event::Drop { handle } => 0 <= handle < self.handles.len(),
        }
    }

    /// The slot that `event` reserves in this state, if it reserves one.
    pub open spec fn reserves(self, event: Event) -> Option<int> {
        match event {
            Event::Attempt { word } => self.bits.claim(word).1,
            Event::Drop { handle } => None,
        }
    }

    /// The slot that `event` releases in this state, if it releases one.
    pub open spec fn releases(self, event: Event) -> Option<int> {
        match event {
            Event::Attempt { word } => None,
            Event::Drop { handle } => Some(self.handles[handle]),
        }
    }

    /// The state after `event`.
    pub open spec fn step(self, event: Event) -> PoolModel {
        match event {
            Event::Attempt { word } => {
                let (bits, taken) = self.bits.claim(word);
                match taken {
                    Some(i) => PoolModel { bits, handles: self.handles.push(i) },
                    None => self,
                }
            },
            Event::Drop { handle } => PoolModel {
                bits: self.bits.release(self.handles[handle]),
                handles: self.handles.remove(handle),
            },
        }
    }

    /// The state after the first `n` of `events`.
    pub open spec fn after(self, events: Seq<Event>, n: int) -> PoolModel
        decreases n,
    {
        if n <= 0 {
            self
        } else {
            self.after(events, n - 1).step(events[n - 1])
        }
    }

    /// Whether each of the first `n` of `events` can happen when its turn
    /// comes.
    pub open spec fn admits(self, events: Seq<Event>, n: int) -> bool
        decreases n,
    {
        n <= 0 || (self.admits(events, n - 1) && self.after(events, n - 1).enabled(events[n - 1]))
    }
}

/// Removing one entry of a list without duplicates removes exactly that
/// entry's value.
proof fn lemma_remove_handle(handles: Seq<int>, k: int)
    requires
        handles.no_duplicates(),
        0 <= k < handles.len(),
    ensures
        handles.remove(k).no_duplicates(),
        handles.remove(k).len() == handles.len() - 1,
        forall|x: int|
            #[trigger] handles.remove(k).contains(x) <==> (handles.contains(x) && x != handles[k]),
{
    let rest = handles.remove(k);
    handles.remove_ensures(k);
    assert forall|x: int| #[trigger] rest.contains(x) <==> (handles.contains(x) && x
        != handles[k]) by {
        if rest.contains(x) {
            let j = choose|j: int| 0 <= j < rest.len() && rest[j] == x;
            if j < k {
                assert(handles[j] == x);
            } else {
                assert(handles[j + 1] == x);
            }
        }
        if handles.contains(x) && x != handles[k] {
            let j = choose|j: int| 0 <= j < handles.len() && handles[j] == x;
            if j < k {
                assert(rest[j] == x);
            } else {
                assert(rest[j - 1] == x);
            }
        }
    }
}

/// A new pool satisfies the invariant.
pub proof fn lemma_new_invariant(capacity: int)
    requires
        0 <= capacity,
    ensures
        PoolModel::new(capacity).consistent(),
        PoolModel::new(capacity).bits.capacity == capacity,
{
    lemma_new(capacity);
}

/// Every event keeps the invariant, and the capacity.
pub proof fn lemma_step_invariant(s: PoolModel, event: Event)
    requires
        s.consistent(),
        s.enabled(event),
    ensures
        s.step(event).consistent(),
        s.step(event).bits.capacity == s.bits.capacity,
        s.step(event).bits.words.len() == s.bits.words.len(),
{
    let t = s.step(event);
    match event {
        Event::Attempt { word } => {
            lemma_claim_step(s.bits, word);
            let (bits, taken) = s.bits.claim(word);
            match taken {
                Some(i) => {
                    assert forall|x: int|
                        #![trigger t.bits.contains(x)]
                        #![trigger t.handles.contains(x)]
                        t.bits.contains(x) <==> t.handles.contains(x) by {
                        if t.handles.contains(x) {
                            let j = choose|j: int| 0 <= j < t.handles.len() && t.handles[j] == x;
                            if j < s.handles.len() {
                                assert(s.handles[j] == x);
                            }
                        }
                        if t.bits.contains(x) {
                            if x == i {
                                assert(t.handles[s.handles.len() as int] == x);
                            } else {
                                assert(s.handles.contains(x));
                                let j = choose|j: int|
                                    0 <= j < s.handles.len() && s.handles[j] == x;
                                assert(t.handles[j] == x);
                            }
                        }
                    }
                    assert(!s.handles.contains(i));
                },
                None => {},
            }
        },
        Event::Drop { handle } => {
            let i = s.handles[handle];
            assert(s.handles.contains(i));
            assert(s.bits.contains(i));
            lemma_release_step(s.bits, i);
            lemma_remove_handle(s.handles, handle);
        },
    }
}

/// The invariant holds in every state that a pool reaches from a state in
/// which it holds, and so in every state that a new pool reaches.
pub proof fn lemma_reachable_invariant(s: PoolModel, events: Seq<Event>, n: int)
    requires
        s.consistent(),
        s.admits(events, n),
    ensures
        s.after(events, n).consistent(),
        s.after(events, n).bits.capacity == s.bits.capacity,
        s.after(events, n).bits.words.len() == s.bits.words.len(),
    decreases n,
{
    if n > 0 {
        lemma_reachable_invariant(s, events, n - 1);
        lemma_step_invariant(s.after(events, n - 1), events[n - 1]);
    }
}

/// A prefix of an admitted run is admitted.
proof fn lemma_admits_prefix(s: PoolModel, events: Seq<Event>, n: int, m: int)
    requires
        s.admits(events, n),
        m <= n,
    ensures
        s.admits(events, m),
    decreases n - m,
{
    if m < n {
        lemma_admits_prefix(s, events, n - 1, m);
    }
}

/// In a consistent state, bit `i` is set if and only if exactly one live
/// handle refers to slot `i`; it is clear if and only if none does.
pub proof fn lemma_one_handle_per_bit(s: PoolModel, i: int)
    requires
        s.consistent(),
    ensures
        s.bits.contains(i) <==> s.handles.to_multiset().count(i) == 1,
        !s.bits.contains(i) <==> s.handles.to_multiset().count(i) == 0,
{
    s.handles.to_multiset_ensures();
    s.handles.lemma_multiset_has_no_duplicates();
    assert(s.handles.contains(i) <==> s.handles.to_multiset().count(i) > 0);
}

/// In every state that a new pool reaches, bit `i` is set if and only if
/// exactly one live handle refers to slot `i`.
pub proof fn lemma_bit_set_iff_one_handle(capacity: int, events: Seq<Event>, n: int, i: int)
    requires
        0 <= capacity,
        PoolModel::new(capacity).admits(events, n),
    ensures
        PoolModel::new(capacity).after(events, n).bits.contains(i) <==> PoolModel::new(
            capacity,
        ).after(events, n).handles.to_multiset().count(i) == 1,
{
    lemma_new_invariant(capacity);
    lemma_reachable_invariant(PoolModel::new(capacity), events, n);
    lemma_one_handle_per_bit(PoolModel::new(capacity).after(events, n), i);
}

/// A slot is handed out only while it is free, and afterwards is reserved: a
/// successful attempt finds its slot's bit clear and without a handle, and
/// leaves the bit set and one handle more.
pub proof fn lemma_attempt_takes_free_slot(s: PoolModel, word: int)
    requires
        s.consistent(),
        s.enabled(Event::Attempt { word }),
    ensures
        match s.reserves(Event::Attempt { word }) {
            Some(i) => {
                &&& 0 <= i < s.bits.capacity
                &&& !s.bits.contains(i)
                &&& !s.handles.contains(i)
                &&& s.step(Event::Attempt { word }).bits.contains(i)
                &&& s.step(Event::Attempt { word }).handles == s.handles.push(i)
            },
            None => s.step(Event::Attempt { word }) == s,
        },
{
    lemma_claim_step(s.bits, word);
}

/// A slot that an event other than its own release finds reserved stays
/// reserved.
proof fn lemma_stays_reserved(s: PoolModel, event: Event, i: int)
    requires
        s.consistent(),
        s.enabled(event),
        s.bits.contains(i),
        s.releases(event) != Some(i),
    ensures
        s.step(event).bits.contains(i),
{
    match event {
        Event::Attempt { word } => {
            lemma_claim_step(s.bits, word);
        },
        Event::Drop { handle } => {
            let j = s.handles[handle];
            assert(s.handles.contains(j));
            lemma_release_step(s.bits, j);
        },
    }
}

/// No slot is handed out twice without a release of it in between: where
/// two events `first < second` of a run both reserve slot `i`, some event
/// between them releases slot `i`.
pub proof fn lemma_no_double_allocation(
    s: PoolModel,
    events: Seq<Event>,
    first: int,
    second: int,
    i: int,
) -> (between: int)
    requires
        s.consistent(),
        0 <= first < second < events.len(),
        s.admits(events, second + 1),
        s.after(events, first).reserves(events[first]) == Some(i),
        s.after(events, second).reserves(events[second]) == Some(i),
    ensures
        first < between < second,
        s.after(events, between).releases(events[between]) == Some(i),
{
    lemma_admits_prefix(s, events, second + 1, first + 1);
    lemma_reachable_invariant(s, events, first);
    let before = s.after(events, first);
    assert(before.enabled(events[first]));
    let word = events[first]->word;
    assert(events[first] == Event::Attempt { word });
    lemma_attempt_takes_free_slot(before, word);
    assert(s.after(events, first + 1).bits.contains(i));
    lemma_released_before(s, events, first + 1, second, i)
}

/// Where slot `i` is reserved after `from` events and event `until` reserves
/// it anew, an event from `from` on and before `until` releases it.
proof fn lemma_released_before(
    s: PoolModel,
    events: Seq<Event>,
    from: int,
    until: int,
    i: int,
) -> (between: int)
    requires
        s.consistent(),
        0 <= from <= until < events.len(),
        s.admits(events, until + 1),
        s.after(events, from).bits.contains(i),
        s.after(events, until).reserves(events[until]) == Some(i),
    ensures
        from <= between < until,
        s.after(events, between).releases(events[between]) == Some(i),
    decreases until - from,
{
    // The event at `until` reserves slot `i`, so it finds the slot free.
    lemma_reachable_invariant(s, events, until);
    let word = events[until]->word;
    assert(events[until] == Event::Attempt { word });
    lemma_attempt_takes_free_slot(s.after(events, until), word);
    assert(from < until);
    lemma_admits_prefix(s, events, until + 1, from + 1);
    lemma_reachable_invariant(s, events, from);
    let here = s.after(events, from);
    if here.releases(events[from]) == Some(i) {
        from
    } else {
        lemma_stays_reserved(here, events[from], i);
        lemma_released_before(s, events, from + 1, until, i)
    }
}

/// A release by someone who holds no handle is found out and does no harm: in
/// a consistent state, a slot to which no live handle refers has its bit
/// clear, so the release finds the bit clear, which is what it tells its
/// caller, and leaves the map as it is.
pub proof fn lemma_release_without_handle(s: PoolModel, i: int)
    requires
        s.consistent(),
        0 <= i < s.bits.capacity,
        !s.handles.contains(i),
    ensures
        !s.bits.contains(i),
        s.bits.release(i) == s.bits,
{
    lemma_release_of_free_index(s.bits, i);
}

/// Dropping a handle makes its slot free, so that the next allocation that
/// nothing interrupts succeeds: it returns that slot or a lower one.
pub proof fn lemma_drop_makes_allocatable(s: PoolModel, handle: int)
    requires
        s.consistent(),
        0 <= handle < s.handles.len(),
    ensures
        !s.step(Event::Drop { handle }).bits.contains(s.handles[handle]),
        s.step(Event::Drop { handle }).bits.allocate_one().1 matches Some(j) && j
            <= s.handles[handle],
{
    let i = s.handles[handle];
    let t = s.step(Event::Drop { handle });
    assert(s.handles.contains(i));
    assert(s.bits.contains(i));
    lemma_release_step(s.bits, i);
    lemma_allocate_one(t.bits);
    match t.bits.allocate_one().1 {
        Some(j) => {
            if i < j {
                assert(t.bits.contains(i));
            }
        },
        None => {
            assert(t.bits.contains(i));
        },
    }
}

} // verus!
