use ultra_low_latency_db::{
    FeedMessage, FeedSource, GlobalConfig, GlobalMarketData, InstrumentBufferConfig,
    MarketDataError, MarketDataStats, MessageType, Price, RedisStats,
};

fn price(value: f64) -> Price {
    Price::from_raw((value * 100_000_000.0) as i64)
}

fn message(token: u64, sequence_num: u64, message_type: MessageType) -> FeedMessage {
    FeedMessage::new(
        token,
        price(100.0),
        price(100.1),
        100,
        100,
        price(100.05),
        50,
        sequence_num,
        FeedSource::PrimaryExchange,
        message_type,
    )
}

fn store() -> GlobalMarketData {
    GlobalMarketData::new(GlobalConfig {
        num_instruments: 4,
        cache_size_mb: 1,
        num_threads: 1,
        buffer_config: InstrumentBufferConfig {
            l1_buffer_size: 2,
            l2_buffer_size: 2,
            ref_buffer_size: 2,
        },
    })
    .unwrap()
}

#[test]
fn stored_message_is_counted_and_queued() {
    let mut store = store();
    assert_eq!(store.register_instrument(1001), Some(0));
    let msg = message(1001, 1, MessageType::L1Update);
    let record = store.process_feed_message(msg).unwrap();
    assert_eq!(record.token, 1001);
    assert_eq!(record.last_price, price(100.05));
    assert_eq!(record.timestamp, msg.timestamp);
    assert_eq!(
        store.get_stats(),
        MarketDataStats {
            total_messages: 1,
            total_updates: 1,
            buffer_full_count: 0,
            invalid_messages: 0,
            subscriber_count: 0
        }
    );
    let tick = store.get_latest_tick(1001).unwrap();
    assert_eq!(tick.last_price, price(100.05));
    assert_eq!(tick.bid_price, price(100.0));
    assert_eq!(tick.ask_price, price(100.1));
    assert!(store.get_latest_tick(1001).is_none());
    assert_eq!(store.next_for_archive(), Some(msg));
    assert_eq!(store.next_for_archive(), None);
}

#[test]
fn each_failure_has_its_error() {
    let mut store = store();
    store.register_instrument(1001);
    assert_eq!(
        store.process_feed_message(message(0x2_0000_0007, 1, MessageType::L1Update)),
        Err(MarketDataError::InvalidInstrument(7))
    );
    assert!(store.process_feed_message(message(1001, 5, MessageType::L1Update)).is_ok());
    assert_eq!(
        store.process_feed_message(message(1001, 5, MessageType::L1Update)),
        Err(MarketDataError::OutOfSequence)
    );
    assert_eq!(
        store.process_feed_message(message(1001, 6, MessageType::HeartBeat)),
        Err(MarketDataError::InvalidRecord)
    );
    assert!(store.process_feed_message(message(1001, 6, MessageType::L1Update)).is_ok());
    assert_eq!(
        store.process_feed_message(message(1001, 7, MessageType::L1Update)),
        Err(MarketDataError::BufferFull)
    );
    assert_eq!(
        store.get_stats(),
        MarketDataStats {
            total_messages: 2,
            total_updates: 2,
            buffer_full_count: 1,
            invalid_messages: 3,
            subscriber_count: 0
        }
    );
}

#[test]
fn messages_go_to_the_ring_of_their_type() {
    let mut store = store();
    store.register_instrument(1);
    assert!(store.process_feed_message(message(1, 1, MessageType::Trade)).is_ok());
    assert!(store.process_feed_message(message(1, 2, MessageType::ReferenceData)).is_ok());
    assert!(store.get_latest_tick(1).is_none());
    assert!(store.process_feed_message(message(1, 3, MessageType::L1Update)).is_ok());
    assert_eq!(store.get_latest_tick(1).unwrap().sequence_num, 3);
}

#[test]
fn archive_queue_keeps_the_order_of_arrival() {
    let mut store = store();
    store.register_instrument(1);
    store.register_instrument(2);
    let first = message(1, 1, MessageType::L1Update);
    let second = message(2, 9, MessageType::L2Update);
    let third = message(1, 2, MessageType::Trade);
    assert!(store.process_feed_message(first).is_ok());
    assert!(store.process_feed_message(second).is_ok());
    assert!(store.process_feed_message(message(1, 1, MessageType::Trade)).is_err());
    assert!(store.process_feed_message(third).is_ok());
    assert_eq!(store.next_for_archive().unwrap().sequence_num, 1);
    assert_eq!(store.next_for_archive(), Some(second));
    assert_eq!(store.next_for_archive(), Some(third));
    assert_eq!(store.next_for_archive(), None);
}

#[test]
fn subscriptions_are_counted() {
    let mut store = store();
    store.subscribe();
    store.subscribe();
    assert_eq!(store.get_stats().subscriber_count, 2);
    assert_eq!(store.config().num_instruments, 4);
}

#[test]
fn a_store_without_room_is_refused() {
    let config = GlobalConfig {
        num_instruments: 4,
        cache_size_mb: 1,
        num_threads: 1,
        buffer_config: InstrumentBufferConfig {
            l1_buffer_size: 0,
            l2_buffer_size: 2,
            ref_buffer_size: 2,
        },
    };
    assert!(GlobalMarketData::new(config).is_err());
}

#[test]
fn publisher_counts_publishes_and_latency_range() {
    let mut stats = RedisStats::new();
    assert_eq!(stats.min_latency_ns, u64::MAX);
    assert_eq!(stats.max_latency_ns, 0);
    stats.record_publish(500);
    stats.record_publish(100);
    stats.record_publish(900);
    stats.record_subscriber();
    assert_eq!(
        stats,
        RedisStats {
            messages_published: 3,
            subscribers: 1,
            publish_latency_ns: 1500,
            min_latency_ns: 100,
            max_latency_ns: 900
        }
    );
    let mut top = RedisStats { publish_latency_ns: u64::MAX, ..RedisStats::new() };
    top.record_publish(1);
    assert_eq!(top.publish_latency_ns, 0);
}
