use ultra_low_latency_db::{
    BufferType, FeedAction, FeedMessage, FeedSource, FeedStats, Frame, MessageType, Price,
};

fn price(value: f64) -> Price {
    Price::from_raw((value * 100_000_000.0) as i64)
}

fn message(sequence_num: u64, message_type: MessageType) -> FeedMessage {
    FeedMessage::new(
        1001,
        price(100.0),
        price(100.1),
        100,
        100,
        price(100.05),
        50,
        sequence_num,
        FeedSource::PrimaryExchange,
        message_type,
    )
}

#[test]
fn new_message_has_no_flags_and_a_timestamp() {
    let m = message(1, MessageType::L1Update);
    assert_eq!(m.token, 1001);
    assert_eq!(m.bid_price, price(100.0));
    assert_eq!(m.ask_price, price(100.1));
    assert_eq!(m.last_price, price(100.05));
    assert_eq!((m.bid_size, m.ask_size, m.last_size), (100, 100, 50));
    assert_eq!(m.sequence_num, 1);
    assert_eq!(m.flags, 0);
    assert_eq!(m.source, FeedSource::PrimaryExchange);
    assert_eq!(m.message_type, MessageType::L1Update);
    assert!(m.timestamp > 1_577_836_800_000_000_000);
    assert!(m.is_valid());
}

#[test]
fn message_validity_follows_the_quote_rules() {
    let mut m = message(1, MessageType::L1Update);
    m.bid_price = price(0.0);
    assert!(!m.is_valid());
    m.bid_price = price(100.2);
    assert!(!m.is_valid());
    m.bid_price = price(100.1);
    assert!(m.is_valid());
    m.bid_size = 0;
    assert!(!m.is_valid());
    m.bid_size = 1;
    m.ask_size = 0;
    assert!(!m.is_valid());
    assert!(!FeedMessage::heartbeat().is_valid());
}

#[test]
fn message_flags_set_and_clear() {
    let mut m = message(1, MessageType::L1Update);
    m.set_flag(0x01);
    m.set_flag(0x10);
    assert_eq!(m.flags, 0x11);
    assert!(m.has_flag(0x10));
    assert!(!m.has_flag(0x02));
    m.clear_flag(0x01);
    assert_eq!(m.flags, 0x10);
}

#[test]
fn message_becomes_a_record_with_the_same_values() {
    let mut m = message(42, MessageType::Trade);
    m.set_flag(0x04);
    let record = m.to_record();
    assert_eq!(record.token, m.token);
    assert_eq!(record.bid_price, m.bid_price);
    assert_eq!(record.ask_price, m.ask_price);
    assert_eq!(record.last_price, m.last_price);
    assert_eq!(record.bid_size, m.bid_size);
    assert_eq!(record.ask_size, m.ask_size);
    assert_eq!(record.last_size, m.last_size);
    assert_eq!(record.timestamp, m.timestamp);
    assert_eq!(record.sequence_num, 42);
    assert_eq!(record.flags, 0x04);
}

#[test]
fn message_type_names_the_ring() {
    assert_eq!(MessageType::L1Update.buffer_type(), Some(BufferType::L1Price));
    assert_eq!(MessageType::L2Update.buffer_type(), Some(BufferType::L2Trade));
    assert_eq!(MessageType::Trade.buffer_type(), Some(BufferType::L2Trade));
    assert_eq!(MessageType::ReferenceData.buffer_type(), Some(BufferType::Reference));
    assert_eq!(MessageType::HeartBeat.buffer_type(), None);
}

#[test]
fn heartbeat_is_all_zero() {
    let beat = FeedMessage::heartbeat();
    assert_eq!(beat.message_type, MessageType::HeartBeat);
    assert_eq!(beat.source, FeedSource::PrimaryExchange);
    assert_eq!(beat.token, 0);
    assert_eq!(beat.sequence_num, 0);
    assert_eq!(beat.bid_price.raw_value(), 0);
}

#[test]
fn every_frame_is_counted_once() {
    let mut stats = FeedStats::default();
    assert_eq!(stats.on_frame(Frame::Other), FeedAction::Skip);
    assert_eq!(stats.on_frame(Frame::Unreadable), FeedAction::Reject);
    let good = message(1, MessageType::L1Update);
    assert_eq!(stats.on_frame(Frame::Message(good)), FeedAction::Process(good));
    let mut bad = good;
    bad.ask_price = price(1.0);
    assert_eq!(stats.on_frame(Frame::Message(bad)), FeedAction::Reject);
    assert_eq!(
        stats,
        FeedStats {
            messages_received: 4,
            messages_processed: 0,
            invalid_messages: 2,
            processing_time_ns: 0
        }
    );
}

#[test]
fn processing_reports_are_counted() {
    let mut stats = FeedStats::default();
    stats.on_processed(true, 250);
    stats.on_processed(true, 50);
    stats.on_processed(false, 999);
    assert_eq!(
        stats,
        FeedStats {
            messages_received: 0,
            messages_processed: 2,
            invalid_messages: 1,
            processing_time_ns: 300
        }
    );
    let mut top = FeedStats {
        messages_received: u64::MAX,
        messages_processed: 0,
        invalid_messages: 0,
        processing_time_ns: u64::MAX,
    };
    top.on_processed(true, 2);
    assert_eq!(top.processing_time_ns, 1);
    top.on_frame(Frame::Other);
    assert_eq!(top.messages_received, 0);
}

fn quote_update(symbol: &str, bid: f64, timestamp: i64) -> ultra_low_latency_db::L1PriceUpdate {
    ultra_low_latency_db::L1PriceUpdate {
        symbol: symbol.to_string(),
        bid: price(bid),
        ask: price(bid + 0.1),
        timestamp,
    }
}

fn trade_update(symbol: &str, timestamp: i64) -> ultra_low_latency_db::L2TradeUpdate {
    ultra_low_latency_db::L2TradeUpdate {
        symbol: symbol.to_string(),
        price: price(10.0),
        size: price(2.5),
        side: ultra_low_latency_db::TradeSide::Buy,
        timestamp,
    }
}

#[test]
fn latest_price_is_the_last_update_for_the_symbol() {
    let mut feed = ultra_low_latency_db::MarketDataFeed::new();
    assert!(feed.get_latest_price(&"AAA".to_string()).is_none());
    feed.add_price_update(quote_update("AAA", 1.0, 1));
    feed.add_price_update(quote_update("BBB", 2.0, 2));
    feed.add_price_update(quote_update("AAA", 3.0, 3));
    feed.add_price_update(quote_update("CCC", 4.0, 4));
    let latest = feed.get_latest_price(&"AAA".to_string()).unwrap();
    assert_eq!(latest.bid, price(3.0));
    assert_eq!(latest.timestamp, 3);
    assert_eq!(feed.get_latest_price(&"BBB".to_string()).unwrap().timestamp, 2);
    assert_eq!(feed.get_latest_price(&"CCC".to_string()).unwrap().timestamp, 4);
    assert!(feed.get_latest_price(&"DDD".to_string()).is_none());
    assert!(feed.get_latest_price(&"AA".to_string()).is_none());
}

#[test]
fn trades_since_keeps_recent_trades_in_order() {
    let mut feed = ultra_low_latency_db::MarketDataFeed::new();
    assert!(feed.get_trades_since(0).is_empty());
    for (symbol, timestamp) in [("A", 5i64), ("B", 1), ("C", 9), ("D", 5), ("E", 4), ("F", -3)] {
        feed.add_trade_update(trade_update(symbol, timestamp));
    }
    let symbols = |since: i64| -> Vec<String> {
        feed.get_trades_since(since).iter().map(|t| t.symbol.clone()).collect()
    };
    assert_eq!(symbols(5), vec!["A", "C", "D"]);
    assert_eq!(symbols(6), vec!["C"]);
    assert_eq!(symbols(10), Vec::<String>::new());
    assert_eq!(symbols(i64::MIN), vec!["A", "B", "C", "D", "E", "F"]);
    assert_eq!(feed.price_updates.len(), 0);
    assert_eq!(feed.trade_updates.len(), 6);
}
