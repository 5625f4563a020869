//! An in-process market-data store: fixed-capacity rings of fixed-size
//! records, three rings per instrument behind one sequence check, and a
//! directory from instrument tokens to dense buffer slots. Around that core
//! stand the rules of its neighbours: what a feed connection does with each
//! frame, what the store answers for each message, and how the archive packs
//! and reads back what it keeps.
//!
//! Every operation takes its receiver by exclusive borrow, so each contract
//! describes one step of a sequential history. Sharing between threads is
//! left to the caller.

pub mod db;
pub mod engine;
pub mod feed;
pub mod memory;
pub mod model;
pub mod storage;
pub mod store;
pub mod timeseries;
pub mod utils;

pub use crate::db::ultra_low_latency_db::UltraLowLatencyDB;
pub use crate::engine::db::Database;
pub use crate::feed::types::{
    FeedAction, FeedMessage, FeedSource, FeedStats, Frame, MessageType, TradeSide,
};
pub use crate::feed::updates::{L1PriceUpdate, L2TradeUpdate, MarketDataFeed};
pub use crate::memory::buffer_manager::InstrumentBufferManager;
pub use crate::memory::instrument_buffer::InstrumentBuffer;
pub use crate::memory::low_latency_mpmc_ring::LowLatencyMpmcRing;
pub use crate::memory::ring_buffer::{
    RingBuffer, RingError, WriteOutcome, ZeroAllocRingBuffer, MAX_CAPACITY,
};
pub use crate::model::config::{
    calculate_latency_stats, cycles_to_nanos, BufferConfig, BufferType, DatabaseConfig,
    InstrumentBufferConfig, LatencyStats,
};
pub use crate::model::instrument_index::InstrumentIndex;
pub use crate::model::record::{MarketDataRecord, Record, RecordStats, UltraLowLatencyRecord};
pub use crate::model::types::{Price, Timestamp};
pub use crate::storage::table::{FieldConfig, Table, TableConfig, TableError};
pub use crate::store::global_market_data::{
    GlobalConfig, GlobalMarketData, MarketDataError, MarketDataStats,
};
pub use crate::store::redis_manager::RedisStats;
pub use crate::timeseries::manager::{
    ArchiveError, CompressionLevel, TimeSeriesConfig, TimeSeriesStats,
};
