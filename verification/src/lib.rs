//! A statically sized, lock-free object pool.
//!
//! A pool has a fixed number of slots. [`Box::new`] reserves a slot for an
//! item and returns the handle that owns both; dropping the handle drops the
//! item and gives the slot back. Which slots are taken is kept in an
//! [`atomic_bitset::AtomicBitset`], a bit per slot in atomic words, so that
//! any number of threads can reserve and release slots without a lock. A
//! caller that finds the pool full can wait for a slot: [`wait`] holds the
//! steps of such an allocation.
//!
//! The words of a bitset change under every caller's feet, so the contracts
//! of the executable functions say what holds of their results whatever
//! other threads do. What the steps do to the words is stated of the
//! abstract state in [`model`], and what follows for every reachable state
//! of a pool in [`system`], [`census`] and [`rounds`].
pub mod atomic_bitset;
pub mod bits;
pub mod boxed;
pub mod census;
pub mod compare;
pub mod model;
pub mod pool;
pub mod rounds;
pub mod system;
pub mod wait;
pub mod word;

pub use crate::bits::ATOMICU32_BITS;
pub use crate::boxed::{Box, PolledBox, SlotPtr};
pub use crate::pool::{Pool, PoolStorage, PoolStorageImpl};
