use atomic_pool::pool::slot_of_offset;
use atomic_pool::{Box, Pool, PoolStorage, PoolStorageImpl, SlotPtr};
use std::mem;
use std::sync::OnceLock;

struct TestPool;

static TEST_POOL: OnceLock<PoolStorageImpl<u32, 4, 1, 0, 0>> = OnceLock::new();

impl Pool for TestPool {
    type Item = u32;
    type Storage = PoolStorageImpl<u32, 4, 1, 0, 0>;

    fn get() -> &'static Self::Storage {
        TEST_POOL.get_or_init(PoolStorageImpl::new)
    }
}

#[test]
fn test_pool() {
    let b1 = Box::<TestPool>::new(111).unwrap();
    let b2 = Box::<TestPool>::new(222).unwrap();
    let b3 = Box::<TestPool>::new(333).unwrap();
    let b4 = Box::<TestPool>::new(444).unwrap();
    assert!(Box::<TestPool>::new(555).is_none());
    assert_eq!(*b1, 111);
    assert_eq!(*b2, 222);
    assert_eq!(*b3, 333);
    assert_eq!(*b4, 444);
    mem::drop(b3);
    let b5 = Box::<TestPool>::new(555).unwrap();
    assert!(Box::<TestPool>::new(666).is_none());
    assert_eq!(*b1, 111);
    assert_eq!(*b2, 222);
    assert_eq!(*b4, 444);
    assert_eq!(*b5, 555);
}

struct RawPool;

static RAW_POOL: OnceLock<PoolStorageImpl<u32, 3, 1, 0, 0>> = OnceLock::new();

impl Pool for RawPool {
    type Item = u32;
    type Storage = PoolStorageImpl<u32, 3, 1, 0, 0>;

    fn get() -> &'static Self::Storage {
        RAW_POOL.get_or_init(PoolStorageImpl::new)
    }
}

#[test]
fn raw_round_trip_keeps_slot_and_contents() {
    let a = Box::<RawPool>::new(7).unwrap();
    let b = Box::<RawPool>::new(0xf00d_babe).unwrap();
    let raw = Box::into_raw(b);
    assert_eq!(raw.index, 1);
    assert_eq!(raw.value, 0xf00d_babe);
    // The slot stays reserved while it is out of its handle.
    let c = Box::<RawPool>::new(9).unwrap();
    assert!(Box::<RawPool>::new(10).is_none());
    let back = Box::<RawPool>::from_raw(raw);
    assert_eq!(*back, 0xf00d_babe);
    assert!(Box::<RawPool>::new(10).is_none());
    mem::drop(back);
    let d = Box::<RawPool>::new(11).unwrap();
    assert_eq!(Box::into_raw(d).index, 1);
    // Nothing releases slot 1 now: it was taken out of its handle for good.
    assert!(Box::<RawPool>::new(12).is_none());
    assert_eq!(*a, 7);
    assert_eq!(*c, 9);
}

struct UninitPool;

static UNINIT_POOL: OnceLock<PoolStorageImpl<u32, 3, 1, 0, 0>> = OnceLock::new();

impl Pool for UninitPool {
    type Item = u32;
    type Storage = PoolStorageImpl<u32, 3, 1, 0, 0>;

    fn get() -> &'static Self::Storage {
        UNINIT_POOL.get_or_init(PoolStorageImpl::new)
    }
}

#[test]
fn raw_slot_written_later_and_reallocated() {
    let storage = UninitPool::get();
    // A slot without a value, written afterwards.
    let slot = storage.allocate().unwrap();
    let index = <PoolStorageImpl<u32, 3, 1, 0, 0> as PoolStorage<u32>>::into_raw(slot);
    assert_eq!(index, 0);
    let mut buffer = Box::<UninitPool>::from_raw(SlotPtr { index, value: 0 });
    *buffer.deref_mut() = 0xf00d_babe;
    assert_eq!(*buffer, 0xf00d_babe);
    let _buffer_2 = Box::<UninitPool>::new(2).unwrap();
    let _buffer_3 = Box::<UninitPool>::new(3).unwrap();
    assert!(storage.allocate().is_none());
    mem::drop(buffer);
    let reallocated = storage.allocate().unwrap();
    assert_eq!(reallocated.inner(), 0);
    assert_eq!(storage.free(reallocated), Some(0));
    assert_eq!(storage.allocate().map(|s| s.inner()), Some(0));
}

struct PairPool;

static PAIR_POOL: OnceLock<PoolStorageImpl<(u8, u8), 1, 1, 0, 0>> = OnceLock::new();

impl Pool for PairPool {
    type Item = (u8, u8);
    type Storage = PoolStorageImpl<(u8, u8), 1, 1, 0, 0>;

    fn get() -> &'static Self::Storage {
        PAIR_POOL.get_or_init(PoolStorageImpl::new)
    }
}

#[test]
fn deref_mut_changes_the_item_in_place() {
    let mut b = Box::<PairPool>::new((1, 2)).unwrap();
    b.deref_mut().1 = 5;
    assert_eq!(*b, (1, 5));
    assert!(Box::<PairPool>::new((0, 0)).is_none());
}

struct OrderPool;

static ORDER_POOL: OnceLock<PoolStorageImpl<u32, 3, 1, 0, 0>> = OnceLock::new();

impl Pool for OrderPool {
    type Item = u32;
    type Storage = PoolStorageImpl<u32, 3, 1, 0, 0>;

    fn get() -> &'static Self::Storage {
        ORDER_POOL.get_or_init(PoolStorageImpl::new)
    }
}

#[test]
fn handles_compare_by_their_items() {
    let a = Box::<OrderPool>::new(5).unwrap();
    let b = Box::<OrderPool>::new(5).unwrap();
    let c = Box::<OrderPool>::new(9).unwrap();
    assert!(a == b);
    assert!(a != c);
    assert!(a < c);
    assert!(c > b);
    assert!(a <= b);
    assert_eq!(a.partial_cmp(&c), Some(std::cmp::Ordering::Less));
    assert_eq!(c.partial_cmp(&a), Some(std::cmp::Ordering::Greater));
    assert_eq!(a.partial_cmp(&b), Some(std::cmp::Ordering::Equal));
}

struct DropPool;

static DROP_POOL: OnceLock<PoolStorageImpl<Noisy, 1, 1, 0, 0>> = OnceLock::new();

static DROPS: std::sync::atomic::AtomicUsize = std::sync::atomic::AtomicUsize::new(0);

struct Noisy;

impl Drop for Noisy {
    fn drop(&mut self) {
        // The slot is still reserved while the item is dropped.
        assert!(DropPool::get().allocate().is_none());
        DROPS.fetch_add(1, std::sync::atomic::Ordering::SeqCst);
    }
}

impl Pool for DropPool {
    type Item = Noisy;
    type Storage = PoolStorageImpl<Noisy, 1, 1, 0, 0>;

    fn get() -> &'static Self::Storage {
        DROP_POOL.get_or_init(PoolStorageImpl::new)
    }
}

#[test]
fn dropping_a_handle_drops_the_item_then_frees_the_slot() {
    let b = Box::<DropPool>::new(Noisy).unwrap();
    assert_eq!(DROPS.load(std::sync::atomic::Ordering::SeqCst), 0);
    mem::drop(b);
    assert_eq!(DROPS.load(std::sync::atomic::Ordering::SeqCst), 1);
    let again = Box::<DropPool>::new(Noisy);
    assert!(again.is_some());
    // An item for which no slot is found is dropped by `new`.
    assert!(Box::<DropPool>::new(Noisy).is_none());
    assert_eq!(DROPS.load(std::sync::atomic::Ordering::SeqCst), 2);
}

struct CountPool;

static COUNT_POOL: OnceLock<PoolStorageImpl<u8, 35, 2, 0, 0>> = OnceLock::new();

impl Pool for CountPool {
    type Item = u8;
    type Storage = PoolStorageImpl<u8, 35, 2, 0, 0>;

    fn get() -> &'static Self::Storage {
        COUNT_POOL.get_or_init(PoolStorageImpl::new)
    }
}

#[test]
fn live_handles_and_free_slots_make_the_capacity() {
    let mut live = Vec::new();
    for held in 0..=35usize {
        // With `held` handles alive, exactly `35 - held` more can be made.
        let mut more = Vec::new();
        while let Some(b) = Box::<CountPool>::new(0) {
            more.push(b);
        }
        assert_eq!(more.len(), 35 - held);
        mem::drop(more);
        if held < 35 {
            live.push(Box::<CountPool>::new(held as u8).unwrap());
        }
    }
    for (i, b) in live.iter().enumerate() {
        assert_eq!(**b, i as u8);
    }
}

#[test]
fn offsets_that_lead_to_a_slot() {
    assert_eq!(slot_of_offset(0, 4), Some(0));
    assert_eq!(slot_of_offset(3, 4), Some(3));
    assert_eq!(slot_of_offset(4, 4), None);
    assert_eq!(slot_of_offset(-1, 4), None);
    assert_eq!(slot_of_offset(isize::MIN, usize::MAX), None);
    assert_eq!(slot_of_offset(isize::MAX, usize::MAX), Some(isize::MAX as usize));
    assert_eq!(slot_of_offset(0, 0), None);
}

struct TripPool;

static TRIP_POOL: OnceLock<PoolStorageImpl<u16, 40, 2, 0, 0>> = OnceLock::new();

impl Pool for TripPool {
    type Item = u16;
    type Storage = PoolStorageImpl<u16, 40, 2, 0, 0>;

    fn get() -> &'static Self::Storage {
        TRIP_POOL.get_or_init(PoolStorageImpl::new)
    }
}

#[test]
fn every_handle_survives_the_round_trip() {
    let mut handles = Vec::new();
    for i in 0..40u16 {
        handles.push(Box::<TripPool>::new(1000 + i).unwrap());
    }
    let mut back = Vec::new();
    for (i, b) in handles.into_iter().enumerate() {
        let raw = Box::into_raw(b);
        assert_eq!(raw.index, i);
        assert!(raw.index < 40);
        back.push(Box::<TripPool>::from_raw(raw));
    }
    assert!(Box::<TripPool>::new(0).is_none());
    for (i, b) in back.iter().enumerate() {
        assert_eq!(**b, 1000 + i as u16);
    }
    mem::drop(back);
    assert!(Box::<TripPool>::new(0).is_some());
}
