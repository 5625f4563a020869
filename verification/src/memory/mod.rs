pub mod instrument_buffer;
pub mod ring_buffer;
pub mod ring_laws;
pub mod buffer_manager;
pub mod sequence_laws;
pub mod low_latency_mpmc_ring;
pub mod manager_laws;
