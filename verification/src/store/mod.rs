pub mod global_market_data;
pub mod redis_manager;
