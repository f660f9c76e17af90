use atomic_pool::atomic_bitset::droppable_bit::DroppableBit;
use atomic_pool::atomic_bitset::AtomicBitset;

#[test]
fn droppable_bit_test_16() {
    let s = AtomicBitset::<16, 1>::new();
    let mut v = vec![];

    for _ in 0..16 {
        let bit = s.allocate_one().map(|i| DroppableBit::new(&s, i));
        assert!(bit.is_some());

        v.push(bit.unwrap());
    }
    assert_eq!(s.allocate_one(), None);
    v.pop();
    v.pop();
    assert!(s.allocate_one().is_some());
    assert!(s.allocate_one().is_some());
    assert_eq!(s.allocate_one(), None);
    v.pop();
    assert!(s.allocate_one().is_some());
}

#[test]
fn guard_reports_and_releases_its_index() {
    let s = AtomicBitset::<3, 1>::new();
    let a = s.allocate_droppable().unwrap();
    let b = s.allocate_droppable().unwrap();
    let c = s.allocate_droppable().unwrap();
    assert_eq!((a.inner(), b.inner(), c.inner()), (0, 1, 2));
    assert!(s.allocate_droppable().is_none());
    drop(b);
    let d = s.allocate_droppable().unwrap();
    assert_eq!(d.inner(), 1);
}

#[test]
fn into_inner_keeps_the_index_reserved() {
    let s = AtomicBitset::<2, 1>::new();
    let a = s.allocate_droppable().unwrap();
    assert_eq!(a.into_inner(), 0);
    assert_eq!(s.allocate_one(), Some(1));
    assert_eq!(s.allocate_one(), None);
    // Taking the index under a guard again and dropping that releases it.
    drop(DroppableBit::new(&s, 0));
    assert_eq!(s.allocate_one(), Some(0));
}
