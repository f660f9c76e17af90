//! The atomic occupancy words, and the two read-modify-write steps that the
//! bitset takes on them.
//!
//! What a word holds can change between any two steps of this thread, so no
//! contract here speaks of what a word holds now: each says only what holds
//! of the value that the step itself found, or of the value with which the
//! word was made.
use crate::bits::{claim, claim_spec};
use portable_atomic::{AtomicU32, Ordering};
use vstd::prelude::*;

verus! {

#[verifier::external_type_specification]
#[verifier::external_body]
pub struct ExAtomicU32(portable_atomic::AtomicU32);

/// The value that `portable_atomic::AtomicU32::new` was given when it made
/// `word`. This is a fact of the word's making, which no later step changes;
/// it says nothing of what the word holds now.
pub uninterp spec fn made_with(word: AtomicU32) -> u32;

/// Fills an array with `K` words, each made by
/// `portable_atomic::AtomicU32::new(value)`: `new` creates an atomic integer
/// that holds the value it is given, so each word is made holding `value`.
#[verifier::external_body]
pub(crate) fn new_words<const K: usize>(value: u32) -> (words: [AtomicU32; K])
    ensures
        forall|w: int| 0 <= w < K ==> made_with(#[trigger] words@[w]) == value,
{
    core::array::from_fn(|_| AtomicU32::new(value))
}

/// Calls `portable_atomic::AtomicU32::fetch_update` with [`claim`] as the
/// function to apply, acquire-release ordering on success and acquire on
/// failure.
///
/// `fetch_update` loads the word and applies the function to what it loaded;
/// while the function returns `Some(next)` it tries to exchange the loaded
/// value for `next`, and starts over with the value it found where the
/// exchange fails. It returns `Ok(previous)` once an exchange has succeeded,
/// so `claim` returned `Some` for `previous`, which is the value that was
/// replaced; it returns `Err(previous)` once `claim` has returned `None` for
/// the value `previous` that it loaded, and then stores nothing. It panics
/// only for a failure ordering of release or acquire-release, which is not
/// what is passed here.
#[verifier::external_body]
pub(crate) fn claim_in_word(word: &AtomicU32, usable: u32) -> (outcome: Result<u32, u32>)
    ensures
        match outcome {
            Ok(previous) => claim_spec(previous, usable) is Some,
            Err(previous) => claim_spec(previous, usable) is None,
        },
{
    word.fetch_update(Ordering::AcqRel, Ordering::Acquire, |v| claim(v, usable))
}

/// Calls `portable_atomic::AtomicU32::fetch_and` with acquire-release
/// ordering: the word becomes its bitwise "and" with `mask` in one atomic
/// step. The call cannot fail and does not panic. It returns the word as it
/// was before the step; what that was depends on what other threads did, so
/// nothing is claimed of it.
#[verifier::external_body]
pub(crate) fn mask_word(word: &AtomicU32, mask: u32) -> (previous: u32)
    opens_invariants none
    no_unwind
{
    word.fetch_and(mask, Ordering::AcqRel)
}

} // verus!
