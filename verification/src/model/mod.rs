pub mod config;
pub mod instrument_index;
pub mod record;
pub mod types;
pub mod wire;
