//! The bitset as a state machine over plain words.
//!
//! An [`crate::atomic_bitset::AtomicBitset`] is shared between threads, and
//! what its words hold changes under the feet of every caller. What can be
//! said of it is said here, of a [`Bitmap`]: the contents of the words at one
//! moment. Each atomic step that the bitset takes on a word is one transition
//! of the map, [`Bitmap::claim`] for a reservation attempt and
//! [`Bitmap::release`] for a release, and any run of concurrent callers is
//! some sequence of these transitions.
use crate::bits::{
    bit_is_set, claim_spec, holds_spec, lemma_claim, lemma_clear_of_clear_bit,
    lemma_release_mask, lemma_with_bit_clear, lemma_zero_word, lowest_clear, release_mask_spec,
    usable_spec, with_bit_clear,
};
use vstd::prelude::*;

verus! {

/// What the words of a bitset hold at one moment.
pub struct Bitmap {
    /// The occupancy words, lowest indices first.
    pub words: Seq<u32>,
    /// The number of indices: `0..capacity`.
    pub capacity: int,
}

impl Bitmap {
    /// Whether index `i` is reserved: bit `i % 32` of word `i / 32` is set.
    pub open spec fn contains(self, i: int) -> bool {
        &&& 0 <= i < 32 * self.words.len()
        &&& bit_is_set(self.words[i / 32], (i % 32) as u32)
    }

    /// There are exactly as many words as the capacity needs, and no bit
    /// that stands for an index at or beyond the capacity is set.
    pub open spec fn well_formed(self) -> bool {
        &&& 0 <= self.capacity <= 32 * self.words.len() < self.capacity + 32
        &&& forall|i: int| #[trigger] self.contains(i) ==> i < self.capacity
    }

    /// The reserved indices.
    pub open spec fn reserved(self) -> Set<int> {
        Set::new(|i: int| self.contains(i))
    }

    /// Whether every index is reserved.
    pub open spec fn is_full(self) -> bool {
        forall|i: int| 0 <= i < self.capacity ==> #[trigger] self.contains(i)
    }

    /// Whether no index is reserved.
    pub open spec fn is_empty(self) -> bool {
        forall|i: int| !#[trigger] self.contains(i)
    }

    /// The map of a new bitset: `⌈capacity / 32⌉` words of zero.
    pub open spec fn new(capacity: int) -> Bitmap {
        Bitmap { words: Seq::new(((capacity + 31) / 32) as nat, |w: int| 0u32), capacity }
    }

    /// One reservation attempt on word `w`: the map after it, and the index
    /// that the attempt reserved, if it reserved one.
    pub open spec fn claim(self, w: int) -> (Bitmap, Option<int>) {
        let word = self.words[w];
        match claim_spec(word, usable_spec(self.capacity as nat, w as nat)) {
            Some(next) => (
                Bitmap { words: self.words.update(w, next), capacity: self.capacity },
                Some(32 * w + lowest_clear(word)),
            ),
            None => (self, None),
        }
    }

    /// The map after index `i` has been released.
    pub open spec fn release(self, i: int) -> Bitmap {
        Bitmap {
            words: self.words.update(
                i / 32,
                with_bit_clear(self.words[i / 32], (i % 32) as u32),
            ),
            capacity: self.capacity,
        }
    }

    /// An allocation that no other step interrupts, from word `w` on: the
    /// words are tried in order until an attempt succeeds.
    pub open spec fn allocate_from(self, w: int) -> (Bitmap, Option<int>)
        decreases self.words.len() - w,
    {
        if 0 <= w < self.words.len() {
            let (next, taken) = self.claim(w);
            if taken is Some {
                (next, taken)
            } else {
                self.allocate_from(w + 1)
            }
        } else {
            (self, None)
        }
    }

    /// An allocation that no other step interrupts.
    pub open spec fn allocate_one(self) -> (Bitmap, Option<int>) {
        self.allocate_from(0)
    }
}

/// The attempt that the bitset makes on word `w` is the transition
/// [`Bitmap::claim`]. The bitset hands `claim` and the word's count of usable
/// bits to the atomic update; if `previous`, the word that the update found
/// and replaced or left alone, is the word of the map, then the update
/// succeeds exactly where the transition reserves an index, it stores the
/// transition's word, and the index that the bitset computes from `previous`
/// is the transition's index.
pub proof fn lemma_attempt_is_claim(s: Bitmap, w: usize, capacity: usize, previous: u32)
    requires
        s.capacity == capacity,
        0 <= w < s.words.len(),
        s.words[w as int] == previous,
    ensures
        match claim_spec(previous, usable_spec(capacity as nat, w as nat)) {
            Some(next) => s.claim(w as int) == (
                Bitmap { words: s.words.update(w as int, next), capacity: s.capacity },
                Some(32 * w + lowest_clear(previous)),
            ),
            None => s.claim(w as int) == (s, None::<int>),
        },
{
}

/// The release that the bitset makes of index `i` is the transition
/// [`Bitmap::release`]: and-ing the word of `i` with the release mask of `i`
/// gives the transition's word. What the release tells its caller, computed
/// from the word that the step found, is whether the map had `i` reserved.
pub proof fn lemma_free_is_release(s: Bitmap, i: usize)
    requires
        0 <= i / 32 < s.words.len(),
    ensures
        s.release(i as int).words == s.words.update(
            i as int / 32,
            s.words[i as int / 32] & release_mask_spec(i),
        ),
        s.release(i as int).capacity == s.capacity,
        holds_spec(s.words[i as int / 32], i) == s.contains(i as int),
{
    lemma_release_mask(s.words[i as int / 32], i, 0);
}

/// A release of an index that is not reserved changes nothing.
pub proof fn lemma_release_of_free_index(s: Bitmap, i: int)
    requires
        0 <= i < 32 * s.words.len(),
        !s.contains(i),
    ensures
        s.release(i) == s,
{
    lemma_clear_of_clear_bit(s.words[i / 32], (i % 32) as u32);
    assert(s.release(i).words =~= s.words);
}

/// A new bitset is well formed and has nothing reserved.
pub proof fn lemma_new(capacity: int)
    requires
        0 <= capacity,
    ensures
        Bitmap::new(capacity).well_formed(),
        Bitmap::new(capacity).is_empty(),
        Bitmap::new(capacity).capacity == capacity,
{
    let s = Bitmap::new(capacity);
    assert forall|i: int| !#[trigger] s.contains(i) by {
        if 0 <= i < 32 * s.words.len() {
            lemma_zero_word((i % 32) as u32);
        }
    }
}

/// What one reservation attempt does. A successful attempt on word `w`
/// reserves an index of that word that was free, lies below the capacity and
/// has only reserved indices of the word below it, and it changes nothing
/// else. A failed attempt changes nothing and has found every index of the
/// word reserved.
pub proof fn lemma_claim_step(s: Bitmap, w: int)
    requires
        s.well_formed(),
        0 <= w < s.words.len(),
    ensures
        ({
            let (t, taken) = s.claim(w);
            &&& t.well_formed()
            &&& t.capacity == s.capacity
            &&& t.words.len() == s.words.len()
            &&& match taken {
                Some(i) => {
                    &&& 32 * w <= i < 32 * w + 32
                    &&& i < s.capacity
                    &&& !s.contains(i)
                    &&& forall|j: int| 32 * w <= j < i ==> #[trigger] s.contains(j)
                    &&& forall|j: int| #[trigger] t.contains(j) == (j == i || s.contains(j))
                },
                None => {
                    &&& t == s
                    &&& forall|j: int|
                        32 * w <= j < 32 * w + 32 && j < s.capacity ==> #[trigger] s.contains(j)
                },
            }
        }),
{
    let word = s.words[w];
    let usable = usable_spec(s.capacity as nat, w as nat);
    lemma_claim(word, usable);
    let (t, taken) = s.claim(w);
    match claim_spec(word, usable) {
        Some(next) => {
            let b = lowest_clear(word);
            let i = 32 * w + b;
            assert(i / 32 == w && i % 32 == b as int);
            assert forall|j: int| 32 * w <= j < i implies #[trigger] s.contains(j) by {
                assert(j / 32 == w);
                assert(bit_is_set(word, (j % 32) as u32));
            }
            assert forall|j: int| #[trigger] t.contains(j) == (j == i || s.contains(j)) by {
                if 0 <= j < 32 * s.words.len() {
                    if j / 32 == w {
                        assert(bit_is_set(next, (j % 32) as u32) == ((j % 32) as u32 == b
                            || bit_is_set(word, (j % 32) as u32)));
                    }
                }
            }
            assert forall|j: int| #[trigger] t.contains(j) implies j < t.capacity by {
                if j != i {
                    assert(s.contains(j));
                }
            }
        },
        None => {
            assert forall|j: int|
                32 * w <= j < 32 * w + 32 && j < s.capacity implies #[trigger] s.contains(
                j,
            ) by {
                assert(j / 32 == w);
                assert(bit_is_set(word, (j % 32) as u32));
            }
        },
    }
}

/// What a release does: it frees the index and changes nothing else.
pub proof fn lemma_release_step(s: Bitmap, i: int)
    requires
        s.well_formed(),
        0 <= i < s.capacity,
    ensures
        s.release(i).well_formed(),
        s.release(i).capacity == s.capacity,
        s.release(i).words.len() == s.words.len(),
        forall|j: int| #[trigger] s.release(i).contains(j) == (j != i && s.contains(j)),
{
    let t = s.release(i);
    let w = i / 32;
    let b = (i % 32) as u32;
    assert forall|j: int| #[trigger] t.contains(j) == (j != i && s.contains(j)) by {
        if 0 <= j < 32 * s.words.len() {
            if j / 32 == w {
                lemma_with_bit_clear(s.words[w], b, (j % 32) as u32);
            }
        }
    }
    assert forall|j: int| #[trigger] t.contains(j) implies j < t.capacity by {
        assert(s.contains(j));
    }
}

/// What an allocation does that no other step interrupts. It reserves the
/// lowest free index and changes nothing else, or, where every index is
/// reserved, it reserves nothing and changes nothing.
pub proof fn lemma_allocate_one(s: Bitmap)
    requires
        s.well_formed(),
    ensures
        ({
            let (t, taken) = s.allocate_one();
            &&& t.well_formed()
            &&& t.capacity == s.capacity
            &&& t.words.len() == s.words.len()
            &&& match taken {
                Some(i) => {
                    &&& 0 <= i < s.capacity
                    &&& !s.contains(i)
                    &&& forall|j: int| 0 <= j < i ==> #[trigger] s.contains(j)
                    &&& forall|j: int| #[trigger] t.contains(j) == (j == i || s.contains(j))
                },
                None => t == s && s.is_full(),
            }
        }),
{
    lemma_allocate_from(s, 0);
}

/// [`lemma_allocate_one`] for a scan that starts at word `w`, every index of
/// the words before `w` being reserved.
proof fn lemma_allocate_from(s: Bitmap, w: int)
    requires
        s.well_formed(),
        0 <= w <= s.words.len(),
        forall|j: int| 0 <= j < 32 * w && j < s.capacity ==> #[trigger] s.contains(j),
    ensures
        ({
            let (t, taken) = s.allocate_from(w);
            &&& t.well_formed()
            &&& t.capacity == s.capacity
            &&& t.words.len() == s.words.len()
            &&& match taken {
                Some(i) => {
                    &&& 0 <= i < s.capacity
                    &&& !s.contains(i)
                    &&& forall|j: int| 0 <= j < i ==> #[trigger] s.contains(j)
                    &&& forall|j: int| #[trigger] t.contains(j) == (j == i || s.contains(j))
                },
                None => t == s && s.is_full(),
            }
        }),
    decreases s.words.len() - w,
{
    if w < s.words.len() {
        lemma_claim_step(s, w);
        let (next, taken) = s.claim(w);
        if taken is None {
            lemma_allocate_from(s, w + 1);
        }
    }
}

} // verus!
