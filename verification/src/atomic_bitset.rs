//! A fixed-size set of slot indices kept in atomic words.
pub mod droppable_bit;

use crate::atomic_bitset::droppable_bit::DroppableBit;
use crate::bits::{claimed_index, release_mask, usable_bits, was_reserved, ATOMICU32_BITS};
use crate::model::{lemma_new, Bitmap};
use crate::word::{claim_in_word, made_with, mask_word, new_words};
use portable_atomic::AtomicU32;
use vstd::prelude::*;

verus! {

/// A set over the indices `0..N`, held in `K` atomic 32-bit words. Bit `b` of
/// word `w` stands for index `32 * w + b`; a set bit means "reserved".
///
/// All operations take `&self` and may run on any number of threads at once.
/// The words' contents are therefore no part of the value that a contract can
/// speak of: [`crate::model::Bitmap`] describes them, one atomic step at a
/// time.
pub struct AtomicBitset<const N: usize, const K: usize> {
    used: [AtomicU32; K],
}

impl<const N: usize, const K: usize> AtomicBitset<N, K> {
    /// `K` is the number of words that `N` bits need: `K = ⌈N / 32⌉`.
    pub open spec fn valid_shape() -> bool {
        N <= 32 * K < N + 32
    }

    #[verifier::type_invariant]
    spec fn shape_holds(self) -> bool {
        Self::valid_shape()
    }

    /// The map with which the bitset was made: each word as it was when the
    /// bitset came into being, before any step was taken on it. It is where
    /// the runs of [`crate::system::PoolModel`] start.
    pub closed spec fn initial(&self) -> Bitmap {
        Bitmap {
            words: Seq::new(K as nat, |w: int| made_with(self.used@[w])),
            capacity: N as int,
        }
    }

    /// A bitset with no index reserved: it is made as the map of `K` zero
    /// words, which is well formed and empty.
    pub fn new() -> (s: Self)
        requires
            Self::valid_shape(),
        ensures
            s.initial() == Bitmap::new(N as int),
            s.initial().well_formed(),
            s.initial().is_empty(),
    {
        let s = Self { used: new_words(0) };
        proof {
            assert(s.initial().words =~= Bitmap::new(N as int).words);
            lemma_new(N as int);
        }
        s
    }

    /// Reserves one index and returns it, or returns `None` when every word
    /// was found without a free index in range.
    ///
    /// Words are tried in order. An attempt on word `w` reserves the lowest
    /// clear bit that it finds there, by one atomic exchange, if that bit
    /// stands for an index below `N`.
    pub fn allocate_one(&self) -> (r: Option<usize>)
        ensures
            r matches Some(i) ==> i < N,
    {
        proof {
            use_type_invariant(self);
        }
        let mut w: usize = 0;
        while w < K
            invariant
                w <= K,
                Self::valid_shape(),
            decreases K - w,
        {
            let usable: u32 = usable_bits(N, w);
            match claim_in_word(&self.used[w], usable) {
                Ok(previous) => {
                    return Some(claimed_index(w, previous));
                },
                Err(_) => {},
            }
            w += 1;
        }
        None
    }

    /// Reserves one index as [`AtomicBitset::allocate_one`] does and hands it
    /// out as a guard that releases it when dropped.
    pub fn allocate_droppable(&self) -> (r: Option<DroppableBit<'_, N, K>>)
        ensures
            r matches Some(bit) ==> bit.index() < N && bit.bitset() == self,
    {
        match self.allocate_one() {
            Some(i) => Some(DroppableBit::new(self, i)),
            None => None,
        }
    }

    /// Releases index `i` by clearing its bit in one atomic step, and tells
    /// whether the step found the bit set. `false` means that `i` was not
    /// reserved: it was never handed out, or it has been released before.
    /// The caller of such a release has broken the rule that only the
    /// holder of an index releases it, and is not to go on.
    pub fn free(&self, i: usize) -> (reserved: bool)
        requires
            i < N,
        opens_invariants none
        no_unwind
    {
        proof {
            use_type_invariant(self);
        }
        let previous: u32 = mask_word(&self.used[i / ATOMICU32_BITS], release_mask(i));
        was_reserved(previous, i)
    }
}

} // verus!
