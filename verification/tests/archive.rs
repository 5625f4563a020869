use ultra_low_latency_db::timeseries::manager::{
    decode_payload, decode_record, encode_payload, encode_record, record_from_payload,
    seal_payload, should_compress, COMPRESSION_THRESHOLD,
};
use ultra_low_latency_db::{
    ArchiveError, CompressionLevel, MarketDataRecord, Price, TimeSeriesConfig, TimeSeriesStats,
};

fn quote() -> MarketDataRecord {
    MarketDataRecord::new(
        1001,
        Price::from_raw(10_000_000_000),
        Price::from_raw(10_010_000_000),
        100,
        100,
        Price::from_raw(10_005_000_000),
        50,
        1,
        1_700_000_000_000_000_000,
        0,
    )
}

fn same(a: &MarketDataRecord, b: &MarketDataRecord) -> bool {
    a.to_bytes() == b.to_bytes()
}

#[test]
fn archive_defaults() {
    let config = TimeSeriesConfig::default();
    assert_eq!(config.partition_size_mb, 256);
    assert_eq!(config.compression_level, CompressionLevel::High);
    assert_eq!(config.cleanup_interval_sec, 3600);
    assert_eq!(config.retention_days, 30);
}

#[test]
fn only_large_payloads_are_compressed() {
    assert_eq!(COMPRESSION_THRESHOLD, 1024);
    assert!(!should_compress(0, CompressionLevel::High));
    assert!(!should_compress(1024, CompressionLevel::High));
    assert!(should_compress(1025, CompressionLevel::High));
    assert!(should_compress(1025, CompressionLevel::Low));
    assert!(should_compress(1025, CompressionLevel::Medium));
    assert!(!should_compress(1025, CompressionLevel::Off));
    assert!(!should_compress(usize::MAX, CompressionLevel::Off));
}

#[test]
fn small_payload_is_stored_as_it_is() {
    let payload = vec![7u8; 1024];
    let (stored, compressed) = encode_payload(payload.clone(), CompressionLevel::High).unwrap();
    assert!(!compressed);
    assert_eq!(stored, payload);
    assert_eq!(decode_payload(stored, false), Ok(payload));
}

#[test]
fn large_payload_is_compressed_and_reads_back() {
    let payload: Vec<u8> = (0..5000u32).map(|i| (i % 7) as u8).collect();
    let (stored, compressed) = encode_payload(payload.clone(), CompressionLevel::Medium).unwrap();
    assert!(compressed);
    assert_ne!(stored, payload);
    assert!(stored.len() < payload.len());
    assert_eq!(&stored[0..4], &5000u32.to_le_bytes());
    assert_eq!(decode_payload(stored, true), Ok(payload));
}

#[test]
fn compression_switched_off_stores_large_payloads_as_they_are() {
    let payload = vec![1u8; 4096];
    let (stored, compressed) = encode_payload(payload.clone(), CompressionLevel::Off).unwrap();
    assert!(!compressed);
    assert_eq!(stored, payload);
}

#[test]
fn sealing_follows_the_coder() {
    let large = vec![3u8; 2000];
    assert_eq!(
        seal_payload(large.clone(), CompressionLevel::High, Some(vec![9, 9])),
        Ok((vec![9, 9], true))
    );
    assert_eq!(
        seal_payload(large.clone(), CompressionLevel::High, None),
        Err(ArchiveError::Compression)
    );
    assert_eq!(
        seal_payload(large.clone(), CompressionLevel::Off, None),
        Ok((large.clone(), false))
    );
    assert_eq!(
        seal_payload(vec![1, 2, 3], CompressionLevel::High, Some(vec![9])),
        Ok((vec![1, 2, 3], false))
    );
}

#[test]
fn garbage_does_not_decompress() {
    assert_eq!(decode_payload(vec![1, 2, 3], true), Err(ArchiveError::Decompression));
    assert_eq!(
        decode_payload(vec![0xFF, 0xFF, 0xFF, 0xFF, 1, 2, 3], true),
        Err(ArchiveError::Decompression)
    );
    assert_eq!(decode_payload(vec![1, 2, 3], false), Ok(vec![1, 2, 3]));
}

#[test]
fn record_is_stored_raw_and_reads_back() {
    let record = quote();
    let (stored, compressed) = encode_record(&record, CompressionLevel::High).unwrap();
    assert!(!compressed);
    assert_eq!(stored, record.to_bytes());
    assert_eq!(stored.len(), 64);
    let read = decode_record(&stored).unwrap();
    assert!(same(&read, &record));
    assert_eq!(read.token, 1001);
    assert_eq!(read.timestamp, 1_700_000_000_000_000_000);
}

#[test]
fn compressed_record_reads_back() {
    let record = quote();
    let block = lz4::block::compress(&record.to_bytes(), None, true).unwrap();
    assert_ne!(block.len(), 64);
    let read = decode_record(&block).unwrap();
    assert!(same(&read, &record));
}

#[test]
fn stored_bytes_that_are_no_record_are_refused() {
    assert!(matches!(decode_record(&[1, 2, 3]), Err(ArchiveError::Decompression)));
    let block = lz4::block::compress(&[5u8; 10], None, true).unwrap();
    assert!(matches!(decode_record(&block), Err(ArchiveError::Malformed)));
    assert!(matches!(record_from_payload(&[0u8; 63]), Err(ArchiveError::Malformed)));
    assert!(record_from_payload(&[0u8; 64]).is_ok());
}

#[test]
fn archive_counts_writes_and_queries() {
    let mut stats = TimeSeriesStats::new();
    assert_eq!(stats.min_write_latency_ns, u64::MAX);
    stats.record_write(64, 64, false, 700);
    stats.record_write(5000, 40, true, 300);
    stats.record_write(3000, 0, true, 500);
    stats.record_query(1234);
    stats.record_query(1);
    assert_eq!(
        stats,
        TimeSeriesStats {
            records_stored: 3,
            bytes_written: 104,
            compression_ratio: 125_000,
            write_latency_ns: 1500,
            query_latency_ns: 1235,
            min_write_latency_ns: 300,
            max_write_latency_ns: 700,
        }
    );
    stats.record_write(1025, 1000, true, 1);
    assert_eq!(stats.compression_ratio, 1025);
}
