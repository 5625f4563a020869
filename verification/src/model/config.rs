use crate::memory::ring_buffer::MAX_CAPACITY;
use vstd::prelude::*;

verus! {

/// Sizing and latency bounds of a single ring.
#[derive(Debug, Clone, Copy, PartialEq, Eq, Structural)]
pub struct BufferConfig {
    /// Number of records the ring holds.
    pub buffer_size: usize,
    /// Longest acceptable write, in nanoseconds.
    pub max_write_latency_ns: u64,
    /// Longest acceptable read, in nanoseconds.
    pub max_read_latency_ns: u64,
    /// Whether wide stores may be used where the machine has them.
    pub use_simd: bool,
}

impl Default for BufferConfig {
    fn default() -> (c: BufferConfig)
        ensures
            c == (BufferConfig {
                buffer_size: 16384,
                max_write_latency_ns: 100,
                max_read_latency_ns: 50,
                use_simd: true,
            }),
    {
        BufferConfig {
            buffer_size: 16384,
            max_write_latency_ns: 100,
            max_read_latency_ns: 50,
            use_simd: true,
        }
    }
}

/// Sizing of a store that keeps one ring per symbol.
#[derive(Debug, Clone, Copy, PartialEq, Eq, Structural)]
pub struct DatabaseConfig {
    /// Capacity of each ring.
    pub buffer_capacity: usize,
    /// Number of symbols to make room for at the start.
    pub num_partitions: usize,
}

impl Default for DatabaseConfig {
    fn default() -> (c: DatabaseConfig)
        ensures
            c == (DatabaseConfig { buffer_capacity: 16384, num_partitions: 64 }),
    {
        DatabaseConfig { buffer_capacity: 16384, num_partitions: 64 }
    }
}

/// Capacities of the three rings that each instrument gets.
#[derive(Debug, Clone, Copy, PartialEq, Eq, Structural)]
pub struct InstrumentBufferConfig {
    /// Slots of the ring for quote updates.
    pub l1_buffer_size: usize,
    /// Slots of the ring for trade updates.
    pub l2_buffer_size: usize,
    /// Slots of the ring for reference data.
    pub ref_buffer_size: usize,
}

impl InstrumentBufferConfig {
    /// Whether a ring can be built of each of the three capacities.
    pub open spec fn valid(&self) -> bool {
        &&& 0 < self.l1_buffer_size <= MAX_CAPACITY
        &&& 0 < self.l2_buffer_size <= MAX_CAPACITY
        &&& 0 < self.ref_buffer_size <= MAX_CAPACITY
    }

    /// Whether a ring can be built of each of the three capacities.
    pub fn is_valid(&self) -> (ok: bool)
        ensures
            ok == self.valid(),
    {
        0 < self.l1_buffer_size && self.l1_buffer_size <= MAX_CAPACITY && 0 < self.l2_buffer_size
            && self.l2_buffer_size <= MAX_CAPACITY && 0 < self.ref_buffer_size
            && self.ref_buffer_size <= MAX_CAPACITY
    }
}

impl Default for InstrumentBufferConfig {
    fn default() -> (c: InstrumentBufferConfig)
        ensures
            c == (InstrumentBufferConfig {
                l1_buffer_size: 65536,
                l2_buffer_size: 32768,
                ref_buffer_size: 8192,
            }),
            c.valid(),
    {
        InstrumentBufferConfig { l1_buffer_size: 65536, l2_buffer_size: 32768, ref_buffer_size: 8192 }
    }
}

/// The three kinds of update, each with a ring of its own.
#[derive(Debug, Clone, Copy, PartialEq, Eq, Structural)]
pub enum BufferType {
    /// Top-of-book quotes.
    L1Price,
    /// Trades and depth updates.
    L2Trade,
    /// Static reference data.
    Reference,
}

/// Order statistics of a set of latency samples.
#[derive(Debug, Clone, Copy, PartialEq, Eq, Structural)]
pub struct LatencyStats {
    pub min: u64,
    pub max: u64,
    pub median: u64,
    pub p90: u64,
    pub p99: u64,
    pub p999: u64,
}

/// The position, among `len` samples in rising order, of the sample at
/// `per_mille` thousandths of the way up.
pub open spec fn percentile_index(len: nat, per_mille: nat) -> nat {
    len * per_mille / 1000
}

/// The statistics of `samples`, which are taken to be in rising order; all
/// zero where there are none.
pub open spec fn latency_stats_of(samples: Seq<u64>) -> LatencyStats {
    if samples.len() == 0 {
        LatencyStats { min: 0, max: 0, median: 0, p90: 0, p99: 0, p999: 0 }
    } else {
        LatencyStats {
            min: samples[0],
            max: samples[samples.len() - 1],
            median: samples[samples.len() as int / 2],
            p90: samples[percentile_index(samples.len(), 900) as int],
            p99: samples[percentile_index(samples.len(), 990) as int],
            p999: samples[percentile_index(samples.len(), 999) as int],
        }
    }
}

fn percentile_position(len: usize, per_mille: usize) -> (index: usize)
    requires
        len > 0,
        per_mille < 1000,
    ensures
        index == percentile_index(len as nat, per_mille as nat),
        index < len,
{
    let whole: usize = len / 1000;
    let part: usize = len % 1000;
    proof {
        assert(len == 1000 * whole + part);
        assert(len * per_mille == 1000 * (whole * per_mille) + part * per_mille)
            by (nonlinear_arith)
            requires
                len == 1000 * whole + part,
        ;
        assert(part * per_mille <= 999 * 999) by (nonlinear_arith)
            requires
                part <= 999,
                per_mille <= 999,
        ;
        assert(whole * per_mille <= whole * 999) by (nonlinear_arith)
            requires
                per_mille <= 999,
        ;
        assert((1000 * (whole * per_mille) + part * per_mille) / 1000 == whole * per_mille + (part
            * per_mille) / 1000) by (nonlinear_arith);
        assert(len * per_mille < len * 1000) by (nonlinear_arith)
            requires
                len > 0,
                per_mille < 1000,
        ;
    }
    whole * per_mille + part * per_mille / 1000
}

/// Minimum, maximum, median and upper percentiles of latency samples that
/// are in rising order.
pub fn calculate_latency_stats(latencies: &[u64]) -> (stats: LatencyStats)
    ensures
        stats == latency_stats_of(latencies@),
{
    let len = latencies.len();
    if len == 0 {
        return LatencyStats { min: 0, max: 0, median: 0, p90: 0, p99: 0, p999: 0 };
    }
    LatencyStats {
        min: latencies[0],
        max: latencies[len - 1],
        median: latencies[len / 2],
        p90: latencies[percentile_position(len, 900)],
        p99: latencies[percentile_position(len, 990)],
        p999: latencies[percentile_position(len, 999)],
    }
}

/// Clock rate, in cycles per second, that cycle counts are converted at.
pub const CYCLES_PER_SECOND: u64 = 3_000_000_000;

/// The time, in whole nanoseconds, that `cycles` cycles take at
/// `CYCLES_PER_SECOND`.
pub fn cycles_to_nanos(cycles: u64) -> (nanos: u64)
    ensures
        nanos == cycles * 1_000_000_000 / 3_000_000_000,
{
    proof {
        assert(cycles * 1_000_000_000 / 3_000_000_000 == cycles / 3) by (nonlinear_arith);
    }
    cycles / 3
}

} // verus!
