use ultra_low_latency_db::LowLatencyMpmcRing;

#[test]
fn queue_hands_items_out_in_order() {
    let mut ring = LowLatencyMpmcRing::<Vec<u8>>::try_new(4).unwrap();
    assert!(ring.is_empty());
    assert!(!ring.is_full());
    assert_eq!(ring.capacity(), 4);
    assert!(ring.try_enqueue(vec![1]));
    assert!(ring.try_enqueue(vec![2, 2]));
    assert!(!ring.is_empty());
    assert_eq!(ring.try_dequeue(), Some(vec![1]));
    assert_eq!(ring.try_dequeue(), Some(vec![2, 2]));
    assert_eq!(ring.try_dequeue(), None);
    assert!(ring.is_empty());
}

#[test]
fn full_queue_refuses_until_an_item_leaves() {
    let mut ring = LowLatencyMpmcRing::<u32>::try_new(2).unwrap();
    assert!(ring.try_enqueue(10));
    assert!(ring.try_enqueue(20));
    assert!(ring.is_full());
    assert!(!ring.try_enqueue(30));
    assert_eq!(ring.try_dequeue(), Some(10));
    assert!(!ring.is_full());
    assert!(ring.try_enqueue(30));
    assert_eq!(ring.try_dequeue(), Some(20));
    assert_eq!(ring.try_dequeue(), Some(30));
    assert_eq!(ring.try_dequeue(), None);
}

#[test]
fn queue_keeps_order_over_many_laps() {
    let mut ring = LowLatencyMpmcRing::<u64>::try_new(8).unwrap();
    let mut next_out = 0u64;
    for item in 0..1000u64 {
        assert!(ring.try_enqueue(item));
        if item % 3 != 0 {
            assert_eq!(ring.try_dequeue(), Some(next_out));
            next_out += 1;
        }
        if ring.is_full() {
            while let Some(out) = ring.try_dequeue() {
                assert_eq!(out, next_out);
                next_out += 1;
            }
        }
    }
}

#[test]
fn only_powers_of_two_from_two_up_make_a_queue() {
    for capacity in [0usize, 1, 3, 5, 6, 7, 12, 1000, (1 << 30) + 1, 1 << 31] {
        assert!(LowLatencyMpmcRing::<u8>::try_new(capacity).is_none(), "{}", capacity);
    }
    for capacity in [2usize, 4, 8, 1024, 8192] {
        assert!(LowLatencyMpmcRing::<u8>::try_new(capacity).is_some(), "{}", capacity);
    }
}
