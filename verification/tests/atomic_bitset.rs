use atomic_pool::atomic_bitset::AtomicBitset;

#[test]
fn atomic_bitset_test_16() {
    let s = AtomicBitset::<16, 1>::new();
    for i in 0..16 {
        assert_eq!(s.allocate_one(), Some(i));
    }
    assert_eq!(s.allocate_one(), None);
    s.free(2);
    s.free(8);
    s.free(4);
    assert_eq!(s.allocate_one(), Some(2));
    assert_eq!(s.allocate_one(), Some(4));
    s.free(3);
    assert_eq!(s.allocate_one(), Some(3));
    assert_eq!(s.allocate_one(), Some(8));
    assert_eq!(s.allocate_one(), None);
}

#[test]
fn test_32() {
    let s = AtomicBitset::<32, 1>::new();
    for i in 0..32 {
        assert_eq!(s.allocate_one(), Some(i));
    }
    assert_eq!(s.allocate_one(), None);
    s.free(2);
    s.free(31);
    s.free(0);
    assert_eq!(s.allocate_one(), Some(0));
    assert_eq!(s.allocate_one(), Some(2));
    s.free(3);
    assert_eq!(s.allocate_one(), Some(3));
    assert_eq!(s.allocate_one(), Some(31));
    assert_eq!(s.allocate_one(), None);
}

#[test]
fn test_48() {
    let s = AtomicBitset::<48, 2>::new();
    for i in 0..48 {
        assert_eq!(s.allocate_one(), Some(i));
    }
    assert_eq!(s.allocate_one(), None);
    s.free(2);
    s.free(46);
    s.free(4);
    s.free(47);
    assert_eq!(s.allocate_one(), Some(2));
    assert_eq!(s.allocate_one(), Some(4));
    s.free(3);
    assert_eq!(s.allocate_one(), Some(3));
    assert_eq!(s.allocate_one(), Some(46));
    assert_eq!(s.allocate_one(), Some(47));
    assert_eq!(s.allocate_one(), None);
}

#[test]
fn test_64() {
    let s = AtomicBitset::<64, 2>::new();
    for i in 0..64 {
        assert_eq!(s.allocate_one(), Some(i));
    }
    assert_eq!(s.allocate_one(), None);
    s.free(2);
    s.free(46);
    s.free(61);
    s.free(4);
    s.free(47);
    assert_eq!(s.allocate_one(), Some(2));
    assert_eq!(s.allocate_one(), Some(4));
    s.free(3);
    assert_eq!(s.allocate_one(), Some(3));
    assert_eq!(s.allocate_one(), Some(46));
    assert_eq!(s.allocate_one(), Some(47));
    assert_eq!(s.allocate_one(), Some(61));
    assert_eq!(s.allocate_one(), None);
}

#[test]
fn test_31337() {
    let s = AtomicBitset::<31337, 980>::new();
    for i in 0..31337 {
        assert_eq!(s.allocate_one(), Some(i));
    }
    assert_eq!(s.allocate_one(), None);
    s.free(26123);
    s.free(6423);
    s.free(4241);
    s.free(47);
    assert_eq!(s.allocate_one(), Some(47));
    assert_eq!(s.allocate_one(), Some(4241));
    s.free(3);
    assert_eq!(s.allocate_one(), Some(3));
    assert_eq!(s.allocate_one(), Some(6423));
    assert_eq!(s.allocate_one(), Some(26123));
    assert_eq!(s.allocate_one(), None);
}

#[test]
fn sixteen_in_order_then_lowest_free_first() {
    let s = AtomicBitset::<16, 1>::new();
    for i in 0..16 {
        assert_eq!(s.allocate_one(), Some(i));
    }
    assert_eq!(s.allocate_one(), None);
    s.free(2);
    s.free(8);
    s.free(4);
    assert_eq!(s.allocate_one(), Some(2));
    assert_eq!(s.allocate_one(), Some(4));
    assert_eq!(s.allocate_one(), Some(8));
    assert_eq!(s.allocate_one(), None);
}

#[test]
fn forty_eight_across_two_words() {
    let s = AtomicBitset::<48, 2>::new();
    for i in 0..48 {
        assert_eq!(s.allocate_one(), Some(i));
    }
    s.free(2);
    s.free(46);
    s.free(4);
    s.free(47);
    assert_eq!(s.allocate_one(), Some(2));
    assert_eq!(s.allocate_one(), Some(4));
    assert_eq!(s.allocate_one(), Some(46));
    assert_eq!(s.allocate_one(), Some(47));
    assert_eq!(s.allocate_one(), None);
}

#[test]
fn capacity_one() {
    let s = AtomicBitset::<1, 1>::new();
    assert_eq!(s.allocate_one(), Some(0));
    assert_eq!(s.allocate_one(), None);
    s.free(0);
    assert_eq!(s.allocate_one(), Some(0));
    assert_eq!(s.allocate_one(), None);
}

#[test]
fn capacity_zero_has_nothing_to_give() {
    let s = AtomicBitset::<0, 0>::new();
    assert_eq!(s.allocate_one(), None);
    assert!(s.allocate_droppable().is_none());
}

#[test]
fn tail_bits_are_never_handed_out() {
    // 33 indices in two words: the second word has one usable bit.
    let s = AtomicBitset::<33, 2>::new();
    let mut seen = vec![false; 33];
    while let Some(i) = s.allocate_one() {
        assert!(i < 33);
        assert!(!seen[i]);
        seen[i] = true;
    }
    assert!(seen.iter().all(|&b| b));
}

#[test]
fn exhaust_drain_and_refill() {
    let s = AtomicBitset::<70, 3>::new();
    for round in 0..2 {
        for i in 0..70 {
            assert_eq!(s.allocate_one(), Some(i), "round {}", round);
        }
        assert_eq!(s.allocate_one(), None);
        for i in 0..70 {
            s.free(i);
        }
    }
}

#[test]
fn a_released_index_comes_back() {
    let s = AtomicBitset::<40, 2>::new();
    for _ in 0..40 {
        assert!(s.allocate_one().is_some());
    }
    for i in [39usize, 0, 31, 32, 17] {
        s.free(i);
        assert_eq!(s.allocate_one(), Some(i));
        assert_eq!(s.allocate_one(), None);
    }
}

#[test]
fn a_new_bitset_has_nothing_reserved() {
    let s = AtomicBitset::<65, 3>::new();
    let mut count = 0;
    while let Some(i) = s.allocate_one() {
        assert_eq!(i, count);
        count += 1;
    }
    assert_eq!(count, 65);
}

#[test]
fn free_tells_whether_the_index_was_reserved() {
    let s = AtomicBitset::<40, 2>::new();
    // Never handed out.
    assert!(!s.free(5));
    assert!(!s.free(39));
    assert_eq!(s.allocate_one(), Some(0));
    assert_eq!(s.allocate_one(), Some(1));
    assert!(s.free(1));
    // Released twice.
    assert!(!s.free(1));
    assert!(s.free(0));
    assert!(!s.free(0));
    // The releases that found nothing did no harm.
    for i in 0..40 {
        assert_eq!(s.allocate_one(), Some(i));
    }
    assert!(s.free(39));
    assert!(s.free(32));
    assert!(!s.free(32));
}
