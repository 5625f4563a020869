use ultra_low_latency_db::InstrumentIndex;

#[test]
fn registration_gives_dense_slots_in_order() {
    let mut index = InstrumentIndex::new(1000);
    assert_eq!(index.len(), 0);
    assert_eq!(index.capacity(), 1000);
    assert_eq!(index.get_first_token(), None);
    assert_eq!(index.register_instrument(1001), Some(0));
    assert_eq!(index.register_instrument(1002), Some(1));
    assert_eq!(index.register_instrument(1001), Some(0));
    assert_eq!(index.len(), 2);
    assert_eq!(index.get_first_token(), Some(1001));
}

#[test]
fn registering_a_token_again_changes_nothing() {
    let mut index = InstrumentIndex::new(4);
    let first = index.register_instrument(77);
    for _ in 0..10 {
        assert_eq!(index.register_instrument(77), first);
        assert_eq!(index.get_buffer_index(77), first);
        assert_eq!(index.len(), 1);
    }
}

#[test]
fn lookup_finds_exactly_the_registered_tokens() {
    let mut index = InstrumentIndex::new(8);
    for token in [5u64, 0, u64::MAX, 1 << 40] {
        assert!(!index.contains(token));
        assert_eq!(index.get_buffer_index(token), None);
        index.register_instrument(token);
        assert!(index.contains(token));
    }
    assert_eq!(index.get_buffer_index(5), Some(0));
    assert_eq!(index.get_buffer_index(0), Some(1));
    assert_eq!(index.get_buffer_index(u64::MAX), Some(2));
    assert_eq!(index.get_buffer_index(1 << 40), Some(3));
    assert_eq!(index.get_buffer_index(6), None);
    assert!(!index.contains(6));
}

#[test]
fn a_full_directory_turns_new_tokens_away() {
    let mut index = InstrumentIndex::new(2);
    assert_eq!(index.register_instrument(10), Some(0));
    assert_eq!(index.register_instrument(20), Some(1));
    assert_eq!(index.register_instrument(30), None);
    assert_eq!(index.len(), 2);
    assert!(!index.contains(30));
    assert_eq!(index.register_instrument(10), Some(0));
    assert_eq!(index.register_instrument(20), Some(1));
}

#[test]
fn a_directory_without_room_takes_nothing() {
    let mut index = InstrumentIndex::new(0);
    assert_eq!(index.register_instrument(1), None);
    assert_eq!(index.len(), 0);
    assert_eq!(index.capacity(), 0);
}
