pub mod ultra_low_latency_db;
