pub mod manager;
pub mod partitions;
