use ultra_low_latency_db::model::record::{
    FLAG_AUCTION, FLAG_CLOSING, FLAG_SNAPSHOT, FLAG_STALE,
};
use ultra_low_latency_db::model::types::nanos_of_reading;
use ultra_low_latency_db::model::wire::RECORD_SIZE;
use ultra_low_latency_db::utils::is_cache_aligned;
use ultra_low_latency_db::{
    MarketDataRecord, Price, Record, RecordStats, Timestamp, UltraLowLatencyRecord,
};

fn price(value: f64) -> Price {
    Price::from_raw((value * 100_000_000.0) as i64)
}

fn as_f64(price: Price) -> f64 {
    price.raw_value() as f64 / 100_000_000.0
}

fn quote() -> MarketDataRecord {
    MarketDataRecord::new(1001, price(100.0), price(100.1), 100, 200, price(100.05), 50, 7, 1000, 0)
}

#[test]
fn test_record_size() {
    assert_eq!(std::mem::size_of::<Record>(), 64);
    assert_eq!(std::mem::align_of::<Record>(), 64);
}

#[test]
fn market_data_record_fills_one_cache_line() {
    assert_eq!(std::mem::size_of::<MarketDataRecord>(), 64);
    assert_eq!(std::mem::align_of::<MarketDataRecord>(), 64);
}

#[test]
fn test_record_creation() {
    let record = Record::with_current_time(1, 100, price(1234.56), 1000, 0);
    assert_eq!(record.id, 1);
    assert_eq!(record.symbol_id, 100);
    assert_eq!(as_f64(record.price), 1234.56);
    assert_eq!(record.quantity, 1000);
    assert_eq!(record.flags, 0);
}

#[test]
fn record_new_keeps_every_field() {
    let record = Record::new(9, 42, Price::from_raw(-5), 3, Timestamp::new(77), 0x81);
    assert_eq!(record.id, 9);
    assert_eq!(record.symbol_id, 42);
    assert_eq!(record.price.raw_value(), -5);
    assert_eq!(record.quantity, 3);
    assert_eq!(record.timestamp.as_nanos(), 77);
    assert_eq!(record.flags, 0x81);
    assert_eq!(record.get_sequence_num(), 9);
    assert_eq!(record.get_token(), 42);
    assert!(!record.validate());
    assert!(Record::new(9, 42, Price::from_raw(5), 3, Timestamp::new(77), 0).validate());
}

#[test]
fn price_is_fixed_point_with_eight_decimals() {
    assert_eq!(Price::DECIMALS, 8);
    assert_eq!(Price::MULTIPLIER, 100_000_000);
    assert_eq!(price(100.0).raw_value(), 10_000_000_000);
    assert_eq!(price(-3.0).raw_value(), -300_000_000);
    assert_eq!(as_f64(Price::from_raw(123_456_000_000)), 1234.56);
    assert!(Price::from_raw(1) < Price::from_raw(2));
    assert!(Price::from_raw(1).is_positive());
    assert!(!Price::from_raw(0).is_positive());
    assert!(!Price::from_raw(-1).is_positive());
}

#[test]
fn timestamp_splits_into_seconds_and_nanos() {
    let t = Timestamp::new(1_700_000_000_123_456_789);
    assert_eq!(t.as_nanos(), 1_700_000_000_123_456_789);
    assert_eq!(t.seconds(), 1_700_000_000);
    assert_eq!(t.subsec_nanos(), 123_456_789);
    assert_eq!(Timestamp::new(999_999_999).seconds(), 0);
    assert_eq!(Timestamp::new(999_999_999).subsec_nanos(), 999_999_999);
    assert_eq!(Timestamp::new(u64::MAX).seconds(), 18_446_744_073);
    assert_eq!(Timestamp::new(u64::MAX).subsec_nanos(), 709_551_615);
}

#[test]
fn wall_clock_is_past_the_year_2020() {
    assert!(Timestamp::now().as_nanos() > 1_577_836_800_000_000_000);
}

#[test]
fn market_data_record_accessors() {
    let record = quote();
    assert_eq!(record.get_token(), 1001);
    assert_eq!(record.get_sequence_num(), 7);
    assert_eq!(record.timestamp, 1000);
    assert_eq!(record.symbol_id(), 1001);
    let wide = MarketDataRecord::new(
        0x1_0000_0005,
        price(1.0),
        price(1.0),
        1,
        1,
        price(1.0),
        1,
        1,
        1,
        0,
    );
    assert_eq!(wide.symbol_id(), 5);
}

#[test]
fn validity_follows_the_quote_rules() {
    assert!(quote().validate());
    let mut crossed = quote();
    crossed.update_prices(price(100.2), price(100.1), price(100.0));
    assert!(!crossed.validate());
    let mut locked = quote();
    locked.update_prices(price(100.0), price(100.0), price(100.0));
    assert!(locked.validate());
    let mut no_bid = quote();
    no_bid.update_prices(price(0.0), price(100.0), price(100.0));
    assert!(!no_bid.validate());
    let mut negative = quote();
    negative.update_prices(price(-1.0), price(100.0), price(100.0));
    assert!(!negative.validate());
    let mut no_size = quote();
    no_size.update_sizes(0, 10, 10);
    assert!(!no_size.validate());
    let mut no_ask_size = quote();
    no_ask_size.update_sizes(10, 0, 10);
    assert!(!no_ask_size.validate());
    let mut no_last_size = quote();
    no_last_size.update_sizes(10, 10, 0);
    assert!(no_last_size.validate());
}

#[test]
fn updates_touch_only_their_fields() {
    let mut record = quote();
    record.update_prices(price(1.0), price(2.0), price(3.0));
    assert_eq!(record.bid_price.raw_value(), 100_000_000);
    assert_eq!(record.ask_price.raw_value(), 200_000_000);
    assert_eq!(record.last_price.raw_value(), 300_000_000);
    assert_eq!(record.bid_size, 100);
    record.update_sizes(4, 5, 6);
    assert_eq!((record.bid_size, record.ask_size, record.last_size), (4, 5, 6));
    assert_eq!(record.token, 1001);
    assert_eq!(record.sequence_num, 7);
    assert_eq!(record.timestamp, 1000);
}

#[test]
fn flags_set_and_clear() {
    let mut record = quote();
    assert!(!record.has_flag(FLAG_SNAPSHOT));
    record.set_flag(FLAG_SNAPSHOT);
    record.set_flag(FLAG_AUCTION);
    assert_eq!(record.flags, 0x81);
    assert!(record.has_flag(FLAG_SNAPSHOT));
    assert!(record.has_flag(FLAG_AUCTION));
    assert!(!record.has_flag(FLAG_STALE));
    assert!(record.has_flag(FLAG_STALE | FLAG_AUCTION));
    record.clear_flag(FLAG_SNAPSHOT);
    assert_eq!(record.flags, 0x80);
    record.clear_flag(FLAG_CLOSING);
    assert_eq!(record.flags, 0x80);
}

#[test]
fn record_stats_count_and_wrap() {
    let mut stats = RecordStats::new();
    assert_eq!(stats, RecordStats { total_updates: 0, invalid_records: 0, sequence_errors: 0 });
    stats.increment_updates();
    stats.increment_updates();
    stats.increment_invalid();
    stats.increment_sequence_errors();
    stats.increment_sequence_errors();
    stats.increment_sequence_errors();
    assert_eq!(stats, RecordStats { total_updates: 2, invalid_records: 1, sequence_errors: 3 });
    let mut top = RecordStats { total_updates: u64::MAX, invalid_records: 0, sequence_errors: 0 };
    top.increment_updates();
    assert_eq!(top.total_updates, 0);
}

#[test]
fn byte_form_is_sixty_four_little_endian_bytes() {
    let record =
        MarketDataRecord::new(0x0102, Price::from_raw(3), Price::from_raw(-1), 5, 6, Price::from_raw(4), 7, 9, 8, 0xA5);
    let bytes = record.to_bytes();
    assert_eq!(bytes.len(), RECORD_SIZE);
    assert_eq!(&bytes[0..8], &[0x02, 0x01, 0, 0, 0, 0, 0, 0]);
    assert_eq!(&bytes[8..16], &[3, 0, 0, 0, 0, 0, 0, 0]);
    assert_eq!(&bytes[16..24], &[0xFF; 8]);
    assert_eq!(&bytes[24..32], &[4, 0, 0, 0, 0, 0, 0, 0]);
    assert_eq!(&bytes[32..40], &[8, 0, 0, 0, 0, 0, 0, 0]);
    assert_eq!(&bytes[40..48], &[9, 0, 0, 0, 0, 0, 0, 0]);
    assert_eq!(&bytes[48..52], &[5, 0, 0, 0]);
    assert_eq!(&bytes[52..56], &[6, 0, 0, 0]);
    assert_eq!(&bytes[56..60], &[7, 0, 0, 0]);
    assert_eq!(&bytes[60..64], &[0xA5, 0, 0, 0]);
}

#[test]
fn byte_form_reads_back() {
    let record = MarketDataRecord::new(
        u64::MAX,
        Price::from_raw(i64::MIN),
        Price::from_raw(i64::MAX),
        u32::MAX,
        1,
        price(100.05),
        50,
        u64::MAX - 1,
        1234,
        0xFF,
    );
    let read = MarketDataRecord::from_bytes(&record.to_bytes()).unwrap();
    assert_eq!(read.token, u64::MAX);
    assert_eq!(read.bid_price, Price::from_raw(i64::MIN));
    assert_eq!(read.ask_price, Price::from_raw(i64::MAX));
    assert_eq!(read.bid_size, u32::MAX);
    assert_eq!(read.ask_size, 1);
    assert_eq!(read.last_price, price(100.05));
    assert_eq!(read.last_size, 50);
    assert_eq!(read.sequence_num, u64::MAX - 1);
    assert_eq!(read.timestamp, 1234);
    assert_eq!(read.flags, 0xFF);
}

#[test]
fn byte_form_of_another_length_is_refused() {
    assert!(MarketDataRecord::from_bytes(&[0u8; 63]).is_none());
    assert!(MarketDataRecord::from_bytes(&[0u8; 65]).is_none());
    assert!(MarketDataRecord::from_bytes(&[]).is_none());
    assert!(MarketDataRecord::from_bytes(&[0u8; 64]).is_some());
}

#[test]
fn cache_alignment_is_a_multiple_of_sixty_four() {
    assert!(is_cache_aligned(0));
    assert!(is_cache_aligned(64));
    assert!(is_cache_aligned(4096));
    assert!(!is_cache_aligned(1));
    assert!(!is_cache_aligned(63));
    assert!(!is_cache_aligned(65));
}

#[test]
fn print_updates_touch_only_their_fields() {
    let mut record = Record::new(1, 2, price(3.0), 4, Timestamp::new(5), 6);
    record.update_price(price(7.5));
    record.update_quantity(8);
    assert_eq!(record.price, price(7.5));
    assert_eq!(record.quantity, 8);
    assert_eq!((record.id, record.symbol_id, record.flags), (1, 2, 6));
    assert_eq!(record.timestamp.as_nanos(), 5);
    assert_eq!(quote().get_timestamp(), 1000);
}

#[test]
fn clock_reading_is_cut_to_sixty_four_bits() {
    assert_eq!(nanos_of_reading(None), 0);
    assert_eq!(nanos_of_reading(Some(0)), 0);
    assert_eq!(nanos_of_reading(Some(1_700_000_000_123_456_789)), 1_700_000_000_123_456_789);
    assert_eq!(nanos_of_reading(Some(u64::MAX as u128)), u64::MAX);
    assert_eq!(nanos_of_reading(Some(u64::MAX as u128 + 1)), 0);
    assert_eq!(nanos_of_reading(Some((1u128 << 64) + 7)), 7);
    assert_eq!(nanos_of_reading(Some(u128::MAX)), u64::MAX);
}
