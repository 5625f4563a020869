use std::time::Instant;
use ultra_low_latency_db::{
    calculate_latency_stats, BufferType, InstrumentBufferConfig, InstrumentBufferManager,
    MarketDataRecord, Price, UltraLowLatencyDB, WriteOutcome,
};

fn price(value: f64) -> Price {
    Price::from_raw((value * 100_000_000.0) as i64)
}

fn tick(token: u64, sequence_num: u64) -> MarketDataRecord {
    MarketDataRecord::new(token, price(100.0), price(100.1), 100, 100, price(100.05), 50, sequence_num, 1000, 0)
}

fn small() -> InstrumentBufferConfig {
    InstrumentBufferConfig { l1_buffer_size: 8, l2_buffer_size: 4, ref_buffer_size: 2 }
}

#[test]
fn registration_scenario() {
    let mut manager =
        InstrumentBufferManager::<MarketDataRecord>::new(1000, InstrumentBufferConfig::default())
            .unwrap();
    assert_eq!(manager.register_instrument(1001), Some(0));
    assert_eq!(manager.register_instrument(1002), Some(1));
    assert_eq!(manager.register_instrument(1001), Some(0));
    assert_eq!(manager.index().len(), 2);

    assert!(manager.write(1001, &tick(1001, 1), BufferType::L1Price));
    assert!(manager.write(1002, &tick(1002, 1), BufferType::L1Price));
    assert_eq!(manager.read(1001, BufferType::L1Price).unwrap().token, 1001);
    assert_eq!(manager.read(1002, BufferType::L1Price).unwrap().token, 1002);
    assert!(manager.read(1001, BufferType::L1Price).is_none());

    assert!(!manager.write(9999, &tick(9999, 1), BufferType::L1Price));
    assert_eq!(manager.try_write(9999, &tick(9999, 2), BufferType::L1Price), WriteOutcome::UnknownInstrument);
    assert_eq!(manager.unknown_count(), 2);
    assert!(manager.read(9999, BufferType::L1Price).is_none());
    assert!(manager.get_instrument_buffer(9999).is_none());
}

#[test]
fn registering_again_keeps_the_buffers() {
    let mut manager = InstrumentBufferManager::<MarketDataRecord>::new(4, small()).unwrap();
    manager.register_instrument(5);
    assert!(manager.write(5, &tick(5, 1), BufferType::L2Trade));
    assert_eq!(manager.register_instrument(5), Some(0));
    assert_eq!(manager.get_instrument_buffer(5).unwrap().last_sequence(), 1);
    assert_eq!(manager.read(5, BufferType::L2Trade).unwrap().sequence_num, 1);
}

#[test]
fn instruments_do_not_share_a_sequence() {
    let mut manager = InstrumentBufferManager::<MarketDataRecord>::new(4, small()).unwrap();
    manager.register_instrument(1);
    manager.register_instrument(2);
    assert!(manager.write(1, &tick(1, 10), BufferType::L1Price));
    assert!(manager.write(2, &tick(2, 3), BufferType::L1Price));
    assert!(!manager.write(1, &tick(1, 3), BufferType::L1Price));
    assert_eq!(manager.get_instrument_buffer(1).unwrap().token(), 1);
    assert_eq!(manager.get_instrument_buffer(2).unwrap().last_sequence(), 3);
}

#[test]
fn a_full_manager_turns_new_instruments_away() {
    let mut manager = InstrumentBufferManager::<MarketDataRecord>::new(1, small()).unwrap();
    assert_eq!(manager.register_instrument(1), Some(0));
    assert_eq!(manager.register_instrument(2), None);
    assert!(!manager.write(2, &tick(2, 1), BufferType::L1Price));
    assert_eq!(manager.register_instrument(1), Some(0));
}

#[test]
fn a_manager_configuration_without_room_is_refused() {
    let none = InstrumentBufferConfig { l1_buffer_size: 0, l2_buffer_size: 4, ref_buffer_size: 2 };
    assert!(InstrumentBufferManager::<MarketDataRecord>::new(4, none).is_err());
    assert!(InstrumentBufferManager::<MarketDataRecord>::with_validation(4, none).is_err());
    assert!(UltraLowLatencyDB::<MarketDataRecord>::with_config(4, none).is_err());
}

#[test]
fn validating_manager_turns_malformed_records_away() {
    let mut manager =
        InstrumentBufferManager::<MarketDataRecord>::with_validation(4, small()).unwrap();
    manager.register_instrument(1);
    let empty = MarketDataRecord::new(1, price(0.0), price(0.0), 0, 0, price(0.0), 0, 1, 1, 0);
    assert_eq!(manager.try_write(1, &empty, BufferType::L1Price), WriteOutcome::InvalidRecord);
    assert_eq!(manager.try_write(1, &tick(1, 1), BufferType::L1Price), WriteOutcome::Written);
}

#[test]
fn store_writes_by_the_token_in_the_record() {
    let mut db = UltraLowLatencyDB::<MarketDataRecord>::new(16);
    assert!(db.read().is_none());
    assert!(!db.write(&tick(7, 1)));
    assert_eq!(db.register_instrument(7), Some(0));
    assert_eq!(db.register_instrument(8), Some(1));
    assert!(db.write(&tick(7, 1)));
    assert!(db.write(&tick(8, 1)));
    assert!(db.write(&tick(7, 2)));
    assert_eq!(db.read().unwrap().sequence_num, 1);
    assert_eq!(db.read().unwrap().sequence_num, 2);
    assert!(db.read().is_none());
    assert_eq!(db.read_from_buffer(8, BufferType::L1Price).unwrap().token, 8);
    assert!(db.write_to_buffer(8, &tick(8, 2), BufferType::Reference));
    assert_eq!(db.read_from_buffer(8, BufferType::Reference).unwrap().sequence_num, 2);
    assert_eq!(db.buffer_manager().index().len(), 2);
}

#[test]
fn test_test_instrument_buffer_system() {
    println!("\nRunning Instrument Buffer System Test");
    println!("====================================");

    let config = InstrumentBufferConfig {
        l1_buffer_size: 65536,
        l2_buffer_size: 32768,
        ref_buffer_size: 8192,
    };

    let mut manager = InstrumentBufferManager::<MarketDataRecord>::new(1000, config).unwrap();

    let instruments: Vec<u64> = vec![1001, 1002, 1003, 1004];
    for &token in &instruments {
        assert!(manager.register_instrument(token).is_some());
    }

    let mut write_latencies: Vec<u64> = Vec::with_capacity(1_000_000);
    let mut read_latencies: Vec<u64> = Vec::with_capacity(1_000_000);

    for sequence in 0..10_000u64 {
        for &token in &instruments {
            let record = MarketDataRecord::new(
                token,
                price(100.0 + (sequence % 100) as f64),
                price(100.1 + (sequence % 100) as f64),
                100,
                100,
                price(100.05 + (sequence % 100) as f64),
                100,
                sequence,
                sequence,
                0,
            );
            let start = Instant::now();
            let written = manager.write(token, &record, BufferType::L1Price);
            let elapsed = start.elapsed().as_nanos() as u64;
            if written {
                write_latencies.push(elapsed);
            }
        }
        if sequence % 2 == 1 {
            for &token in &instruments {
                let start = Instant::now();
                if let Some(record) = manager.read(token, BufferType::L1Price) {
                    read_latencies.push(start.elapsed().as_nanos() as u64);
                    assert_eq!(record.token, token);
                }
            }
        }
    }

    let total_writes = write_latencies.len();
    let total_reads = read_latencies.len();

    write_latencies.sort_unstable();
    read_latencies.sort_unstable();

    let write_stats = calculate_latency_stats(&write_latencies);
    let read_stats = calculate_latency_stats(&read_latencies);

    println!("\nSystem Performance Statistics");
    println!("---------------------------");
    println!("Total Operations:");
    println!("  Writes: {}", total_writes);
    println!("  Reads: {}", total_reads);
    println!("\nWrite Latencies (cycles):");
    println!("  Median: {}", write_stats.median);
    println!("\nRead Latencies (cycles):");
    println!("  Median: {}", read_stats.median);

    assert!(total_writes > 0, "No writes were performed");
    assert!(total_reads > 0, "No reads were performed");
    assert!(total_reads <= total_writes, "Read more records than were written");

    for &token in &instruments {
        assert!(
            manager.read(token, BufferType::L2Trade).is_none(),
            "L2Trade buffer should be empty for instrument {}",
            token
        );
        assert!(
            manager.read(token, BufferType::Reference).is_none(),
            "Reference buffer should be empty for instrument {}",
            token
        );
    }
}
