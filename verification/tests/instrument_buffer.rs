use ultra_low_latency_db::{
    BufferType, InstrumentBuffer, InstrumentBufferConfig, MarketDataRecord, Price, RecordStats,
    RingError, WriteOutcome,
};

fn price(value: f64) -> Price {
    Price::from_raw((value * 100_000_000.0) as i64)
}

fn small() -> InstrumentBufferConfig {
    InstrumentBufferConfig { l1_buffer_size: 4, l2_buffer_size: 4, ref_buffer_size: 2 }
}

fn tick(sequence_num: u64) -> MarketDataRecord {
    MarketDataRecord::new(1, price(100.0), price(101.0), 100, 100, price(100.5), 50, sequence_num, 1000, 0)
}

#[test]
fn test_sequence_validation() {
    let mut buffer = InstrumentBuffer::<MarketDataRecord>::new(1, &small()).unwrap();

    let record1 =
        MarketDataRecord::new(1, price(100.0), price(101.0), 100, 100, price(100.5), 50, 2, 1000, 0);
    let record2 =
        MarketDataRecord::new(1, price(100.1), price(101.1), 100, 100, price(100.6), 50, 1, 1001, 0);

    assert!(buffer.write(&record1, BufferType::L1Price));
    assert!(!buffer.write(&record2, BufferType::L1Price));
}

#[test]
fn sequence_check_scenario() {
    let mut buffer = InstrumentBuffer::<MarketDataRecord>::new(1, &small()).unwrap();
    assert!(buffer.write(&tick(2), BufferType::L1Price));
    assert!(!buffer.write(&tick(1), BufferType::L1Price));
    assert!(buffer.write(&tick(3), BufferType::L1Price));
    assert_eq!(buffer.read(BufferType::L1Price).unwrap().sequence_num, 2);
    assert_eq!(buffer.read(BufferType::L1Price).unwrap().sequence_num, 3);
    assert!(buffer.read(BufferType::L1Price).is_none());
}

#[test]
fn first_sequence_number_must_be_above_zero() {
    let mut buffer = InstrumentBuffer::<MarketDataRecord>::new(1, &small()).unwrap();
    assert_eq!(buffer.last_sequence(), 0);
    assert_eq!(buffer.try_write(&tick(0), BufferType::L1Price), WriteOutcome::OutOfSequence);
    assert_eq!(buffer.try_write(&tick(1), BufferType::L1Price), WriteOutcome::Written);
    assert_eq!(buffer.last_sequence(), 1);
}

#[test]
fn one_sequence_orders_all_three_rings() {
    let mut buffer = InstrumentBuffer::<MarketDataRecord>::new(1, &small()).unwrap();
    assert!(buffer.write(&tick(5), BufferType::L1Price));
    assert!(!buffer.write(&tick(5), BufferType::L2Trade));
    assert!(!buffer.write(&tick(4), BufferType::Reference));
    assert!(buffer.write(&tick(6), BufferType::L2Trade));
    assert!(buffer.write(&tick(7), BufferType::Reference));
    assert!(!buffer.write(&tick(7), BufferType::L1Price));
    assert_eq!(buffer.last_sequence(), 7);
    assert_eq!(buffer.read(BufferType::L2Trade).unwrap().sequence_num, 6);
    assert_eq!(buffer.read(BufferType::Reference).unwrap().sequence_num, 7);
    assert_eq!(buffer.read(BufferType::L1Price).unwrap().sequence_num, 5);
    assert!(buffer.read(BufferType::L2Trade).is_none());
}

#[test]
fn replay_is_refused_and_changes_only_the_count() {
    let mut buffer = InstrumentBuffer::<MarketDataRecord>::new(9, &small()).unwrap();
    assert!(buffer.write(&tick(10), BufferType::L1Price));
    let before = buffer.get_buffer(BufferType::L1Price).len();
    for _ in 0..3 {
        assert_eq!(buffer.try_write(&tick(10), BufferType::L1Price), WriteOutcome::OutOfSequence);
    }
    assert_eq!(buffer.get_buffer(BufferType::L1Price).len(), before);
    assert_eq!(buffer.last_sequence(), 10);
    assert_eq!(
        buffer.stats(),
        RecordStats { total_updates: 1, invalid_records: 0, sequence_errors: 3 }
    );
    assert_eq!(buffer.token(), 9);
}

#[test]
fn a_full_ring_does_not_raise_the_last_sequence() {
    let mut buffer = InstrumentBuffer::<MarketDataRecord>::new(1, &small()).unwrap();
    assert!(buffer.write(&tick(1), BufferType::Reference));
    assert!(buffer.write(&tick(2), BufferType::Reference));
    assert_eq!(buffer.try_write(&tick(3), BufferType::Reference), WriteOutcome::BufferFull);
    assert_eq!(buffer.last_sequence(), 2);
    assert_eq!(buffer.try_write(&tick(3), BufferType::L1Price), WriteOutcome::Written);
    assert_eq!(buffer.last_sequence(), 3);
    assert!(buffer.get_buffer(BufferType::Reference).is_full());
    assert!(!buffer.get_buffer(BufferType::L1Price).is_full());
    assert!(buffer.get_buffer(BufferType::L2Trade).is_empty());
}

#[test]
fn validating_buffers_count_malformed_records() {
    let mut buffer = InstrumentBuffer::<MarketDataRecord>::with_validation(1, &small()).unwrap();
    let crossed =
        MarketDataRecord::new(1, price(101.0), price(100.0), 100, 100, price(100.5), 50, 1, 1000, 0);
    assert_eq!(buffer.try_write(&crossed, BufferType::L1Price), WriteOutcome::InvalidRecord);
    assert_eq!(buffer.last_sequence(), 0);
    assert_eq!(
        buffer.stats(),
        RecordStats { total_updates: 0, invalid_records: 1, sequence_errors: 0 }
    );
    assert_eq!(buffer.get_buffer(BufferType::L1Price).invalid_count(), 1);
    assert!(buffer.write(&tick(1), BufferType::L1Price));
}

#[test]
fn a_configuration_without_room_is_refused() {
    let none = InstrumentBufferConfig { l1_buffer_size: 4, l2_buffer_size: 0, ref_buffer_size: 2 };
    assert!(matches!(
        InstrumentBuffer::<MarketDataRecord>::new(1, &none),
        Err(RingError::InvalidCapacity)
    ));
    assert!(InstrumentBuffer::<MarketDataRecord>::with_validation(1, &none).is_err());
}
