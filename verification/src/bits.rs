//! Arithmetic on one 32-bit occupancy word.
//!
//! Bit `b` of a word stands for one slot; a set bit means that the slot is
//! reserved. Everything here works on plain `u32` values, so that the same
//! functions describe both what the atomic steps compute and what the
//! abstract model in [`crate::model`] says of them.
use vstd::prelude::*;
use vstd::std_specs::bits::{axiom_u32_trailing_ones, u32_trailing_ones};

verus! {

/// Number of slot bits held by one occupancy word.
pub const ATOMICU32_BITS: usize = 32;

/// Whether bit `bit` of `word` is set. Positions from 32 on hold no bit.
pub open spec fn bit_is_set(word: u32, bit: u32) -> bool {
    bit < 32 && (word >> bit) & 1u32 == 1u32
}

/// Position of the lowest clear bit of `word`, or 32 when every bit is set.
pub open spec fn lowest_clear(word: u32) -> u32 {
    u32_trailing_ones(word)
}

/// `word` with bit `bit` set.
pub open spec fn with_bit_set(word: u32, bit: u32) -> u32 {
    word | (1u32 << bit)
}

/// `word` with bit `bit` cleared.
pub open spec fn with_bit_clear(word: u32, bit: u32) -> u32 {
    word & !(1u32 << bit)
}

/// How many bits of word `word_index` stand for indices below `capacity`,
/// when the word's bit 0 stands for index `32 * word_index`.
pub open spec fn usable_spec(capacity: nat, word_index: nat) -> u32 {
    if capacity >= 32 * word_index + 32 {
        32u32
    } else if capacity >= 32 * word_index {
        (capacity - 32 * word_index) as u32
    } else {
        0u32
    }
}

/// The word that reserves the lowest clear bit of `word`, provided that bit
/// lies among the first `usable` bits; `None` where no such bit is left.
pub open spec fn claim_spec(word: u32, usable: u32) -> Option<u32> {
    if lowest_clear(word) < 32 && lowest_clear(word) < usable {
        Some(with_bit_set(word, lowest_clear(word)))
    } else {
        None
    }
}

/// The mask that, and-ed onto the word holding index `index`, clears the bit
/// of that index and keeps every other bit.
pub open spec fn release_mask_spec(index: usize) -> u32 {
    !(1u32 << ((index % 32) as u32))
}

/// Whether `word`, the word that holds the bit of `index`, has that bit set.
pub open spec fn holds_spec(word: u32, index: usize) -> bool {
    bit_is_set(word, (index % 32) as u32)
}

/// Counts the bits of word `word_index` that stand for indices below
/// `capacity`.
pub fn usable_bits(capacity: usize, word_index: usize) -> (usable: u32)
    requires
        32 * word_index <= capacity,
    ensures
        usable == usable_spec(capacity as nat, word_index as nat),
        usable <= 32,
{
    let base: usize = word_index * ATOMICU32_BITS;
    if capacity - base >= ATOMICU32_BITS {
        32
    } else {
        (capacity - base) as u32
    }
}

/// Decides what one reservation attempt does to an occupancy word: the word
/// to store in its place, or `None` to leave it as it is.
pub fn claim(word: u32, usable: u32) -> (next: Option<u32>)
    ensures
        next == claim_spec(word, usable),
{
    let zero_bit: u32 = word.trailing_ones();
    proof {
        axiom_u32_trailing_ones(word);
    }
    if zero_bit == 32 {
        // there are no zero bits
        None
    } else if zero_bit >= usable {
        // the only zero bits left stand for indices out of range
        None
    } else {
        Some(word | (1u32 << zero_bit))
    }
}

/// The index that a successful reservation attempt took, given the word
/// `previous` that the attempt found in word `word_index`.
pub fn claimed_index(word_index: usize, previous: u32) -> (index: usize)
    requires
        32 * word_index + lowest_clear(previous) <= usize::MAX,
    ensures
        index == 32 * word_index + lowest_clear(previous),
{
    let zero_bit: u32 = previous.trailing_ones();
    zero_bit as usize + word_index * ATOMICU32_BITS
}

/// Computes the mask with which `index` is released.
pub fn release_mask(index: usize) -> (mask: u32)
    ensures
        mask == release_mask_spec(index),
    opens_invariants none
    no_unwind
{
    let bit: u32 = (index % ATOMICU32_BITS) as u32;
    !(1u32 << bit)
}

/// Tells from `previous`, the word that a release of `index` found, whether
/// `index` was reserved when it was released. A release that finds its bit
/// clear is a release of an index that nobody held.
pub fn was_reserved(previous: u32, index: usize) -> (reserved: bool)
    ensures
        reserved == holds_spec(previous, index),
    opens_invariants none
    no_unwind
{
    let bit: u32 = (index % ATOMICU32_BITS) as u32;
    (previous >> bit) & 1u32 == 1u32
}

/// The lowest clear bit is clear, and every bit below it is set.
pub proof fn lemma_lowest_clear(word: u32)
    ensures
        lowest_clear(word) <= 32,
        lowest_clear(word) < 32 ==> !bit_is_set(word, lowest_clear(word)),
        forall|j: u32| j < lowest_clear(word) ==> bit_is_set(word, j),
{
    axiom_u32_trailing_ones(word);
    let b = lowest_clear(word);
    if b < 32 {
        assert(((word >> b) & 1u32 == 0u32) ==> !((word >> b) & 1u32 == 1u32)) by (bit_vector);
    }
    assert forall|j: u32| j < lowest_clear(word) implies bit_is_set(word, j) by {
        assert((word >> j) & 1u32 == 1u32);
    }
}

/// Setting bit `bit` sets that bit and changes no other.
pub proof fn lemma_with_bit_set(word: u32, bit: u32, j: u32)
    requires
        bit < 32,
    ensures
        bit_is_set(with_bit_set(word, bit), j) == (j == bit || bit_is_set(word, j)),
{
    assert(bit < 32 && j < 32 ==> ((((word | (1u32 << bit)) >> j) & 1u32 == 1u32) <==> (j == bit
        || (word >> j) & 1u32 == 1u32))) by (bit_vector);
}

/// Clearing bit `bit` clears that bit and changes no other.
pub proof fn lemma_with_bit_clear(word: u32, bit: u32, j: u32)
    requires
        bit < 32,
    ensures
        bit_is_set(with_bit_clear(word, bit), j) == (j != bit && bit_is_set(word, j)),
{
    assert(bit < 32 && j < 32 ==> ((((word & !(1u32 << bit)) >> j) & 1u32 == 1u32) <==> (j != bit
        && (word >> j) & 1u32 == 1u32))) by (bit_vector);
}

/// And-ing a word with the release mask of `index` clears the bit of `index`
/// in it and changes no other bit.
pub proof fn lemma_release_mask(word: u32, index: usize, j: u32)
    ensures
        word & release_mask_spec(index) == with_bit_clear(word, (index % 32) as u32),
        bit_is_set(word & release_mask_spec(index), j) == (j != (index % 32) as u32 && bit_is_set(
            word,
            j,
        )),
{
    lemma_with_bit_clear(word, (index % 32) as u32, j);
}

/// Clearing a bit that is clear leaves the word as it is.
pub proof fn lemma_clear_of_clear_bit(word: u32, bit: u32)
    requires
        bit < 32,
        !bit_is_set(word, bit),
    ensures
        with_bit_clear(word, bit) == word,
{
    assert(bit < 32 && (word >> bit) & 1u32 != 1u32 ==> word & !(1u32 << bit) == word)
        by (bit_vector);
}

/// The zero word has no bit set.
pub proof fn lemma_zero_word(j: u32)
    ensures
        !bit_is_set(0u32, j),
{
    assert(j < 32 ==> (0u32 >> j) & 1u32 == 0u32) by (bit_vector);
}

/// A successful attempt sets exactly the lowest clear bit, which lies among
/// the usable bits; a failed attempt means that all usable bits are set.
pub proof fn lemma_claim(word: u32, usable: u32)
    requires
        usable <= 32,
    ensures
        match claim_spec(word, usable) {
            Some(next) => {
                &&& lowest_clear(word) < usable
                &&& !bit_is_set(word, lowest_clear(word))
                &&& forall|j: u32|
                    bit_is_set(next, j) == (j == lowest_clear(word) || bit_is_set(word, j))
            },
            None => forall|j: u32| j < usable ==> bit_is_set(word, j),
        },
{
    lemma_lowest_clear(word);
    let b = lowest_clear(word);
    match claim_spec(word, usable) {
        Some(next) => {
            assert forall|j: u32| bit_is_set(next, j) == (j == b || bit_is_set(word, j)) by {
                lemma_with_bit_set(word, b, j);
            }
        },
        None => {},
    }
}

} // verus!
