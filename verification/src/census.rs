//! Counting: how many indices a bitset has reserved, and how many handles a
//! pool can have.
use crate::bits::bit_is_set;
use crate::model::Bitmap;
use crate::system::{lemma_new_invariant, lemma_reachable_invariant, Event, PoolModel};
use vstd::prelude::*;

verus! {

/// The number of set bits among the lowest `n` bits of `word`.
pub open spec fn count_bits(word: u32, n: nat) -> nat
    decreases n,
{
    if n == 0 {
        0
    } else {
        count_bits(word, (n - 1) as nat) + if bit_is_set(word, (n - 1) as u32) {
            1nat
        } else {
            0nat
        }
    }
}

/// The number of set bits of `word`.
pub open spec fn popcount(word: u32) -> nat {
    count_bits(word, 32)
}

/// The number of set bits of all of `words`.
pub open spec fn popcount_words(words: Seq<u32>) -> nat
    decreases words.len(),
{
    if words.len() == 0 {
        0
    } else {
        popcount_words(words.drop_last()) + popcount(words.last())
    }
}

/// The number of reserved indices below `m`.
spec fn count_below(s: Bitmap, m: int) -> nat
    decreases m,
{
    if m <= 0 {
        0
    } else {
        count_below(s, m - 1) + if s.contains(m - 1) {
            1nat
        } else {
            0nat
        }
    }
}

/// The reserved indices below `m`.
spec fn reserved_below(s: Bitmap, m: int) -> Set<int> {
    Set::new(|i: int| 0 <= i < m && s.contains(i))
}

proof fn lemma_reserved_below(s: Bitmap, m: int)
    requires
        0 <= m,
    ensures
        reserved_below(s, m).finite(),
        reserved_below(s, m).len() == count_below(s, m),
        count_below(s, m) <= m,
    decreases m,
{
    if m == 0 {
        assert(reserved_below(s, 0) =~= Set::<int>::empty());
    } else {
        lemma_reserved_below(s, m - 1);
        if s.contains(m - 1) {
            assert(reserved_below(s, m) =~= reserved_below(s, m - 1).insert(m - 1));
        } else {
            assert(reserved_below(s, m) =~= reserved_below(s, m - 1));
        }
    }
}

proof fn lemma_count_below_words(s: Bitmap, k: int, b: int)
    requires
        0 <= k <= s.words.len(),
        0 <= b <= 32,
        k == s.words.len() ==> b == 0,
    ensures
        count_below(s, 32 * k + b) == popcount_words(s.words.take(k)) + if b == 0 {
            0nat
        } else {
            count_bits(s.words[k], b as nat)
        },
    decreases k, b,
{
    if b == 0 {
        if k == 0 {
            assert(s.words.take(0).len() == 0);
        } else {
            lemma_count_below_words(s, k - 1, 32);
            assert(s.words.take(k).drop_last() =~= s.words.take(k - 1));
            assert(s.words.take(k).last() == s.words[k - 1]);
        }
    } else {
        lemma_count_below_words(s, k, b - 1);
        let i = 32 * k + b - 1;
        assert(i / 32 == k && i % 32 == b - 1);
    }
}

/// The reserved indices are finitely many: as many as the words have set
/// bits, and no more than the capacity.
pub proof fn lemma_reserved_count(s: Bitmap)
    requires
        s.well_formed(),
    ensures
        s.reserved().finite(),
        s.reserved().len() == popcount_words(s.words),
        s.reserved().len() <= s.capacity,
{
    let len = s.words.len() as int;
    lemma_reserved_below(s, 32 * len);
    lemma_reserved_below(s, s.capacity);
    lemma_count_below_words(s, len, 0);
    assert(s.words.take(len) =~= s.words);
    assert(s.reserved() =~= reserved_below(s, 32 * len));
    assert(s.reserved() =~= reserved_below(s, s.capacity));
}

/// In a consistent state, the number of live handles equals the number of
/// set bits of the occupancy words, and does not exceed the capacity.
pub proof fn lemma_handle_count(s: PoolModel)
    requires
        s.consistent(),
    ensures
        s.handles.len() == popcount_words(s.bits.words),
        s.handles.len() <= s.bits.capacity,
{
    lemma_reserved_count(s.bits);
    s.handles.unique_seq_to_set();
    assert(s.handles.to_set() =~= s.bits.reserved());
}

/// In every state that a new pool reaches, the number of live handles
/// equals the number of set bits of the occupancy words, and does not exceed
/// the capacity. For the waiter registry this says that no more callers are
/// parked than the registry has cells.
pub proof fn lemma_reachable_handle_count(capacity: int, events: Seq<Event>, n: int)
    requires
        0 <= capacity,
        PoolModel::new(capacity).admits(events, n),
    ensures
        PoolModel::new(capacity).after(events, n).handles.len() == popcount_words(
            PoolModel::new(capacity).after(events, n).bits.words,
        ),
        PoolModel::new(capacity).after(events, n).handles.len() <= capacity,
{
    lemma_new_invariant(capacity);
    lemma_reachable_invariant(PoolModel::new(capacity), events, n);
    lemma_handle_count(PoolModel::new(capacity).after(events, n));
}

} // verus!
