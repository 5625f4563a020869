use vstd::prelude::*;

verus! {

/// Identifier of a record.
pub type RecordId = u64;

/// Order size.
pub type Quantity = u32;

/// Identifier of a symbol.
pub type SymbolId = u32;

/// Status bits of a record.
pub type Flags = u8;

/// Nanoseconds in one second.
pub const NANOS_PER_SECOND: u64 = 1_000_000_000;

/// `std::time::SystemTime::now`, as the nanoseconds that have passed since
/// the Unix epoch; `None` where the clock stands before the epoch. The clock
/// decides the value, so nothing is claimed of it.
#[verifier::external_body]
fn nanos_since_epoch() -> Option<u128> {
    std::time::SystemTime::now().duration_since(std::time::UNIX_EPOCH).ok().map(|d| d.as_nanos())
}

/// The wall clock's present reading in nanoseconds since the Unix epoch, cut
/// to 64 bits; zero where the clock stands before the epoch.
pub fn current_time_nanos() -> u64 {
    // The clock alone decides the reading, so nothing is promised of it
    // here; `nanos_of_reading` says what is made of each reading.
    let reading = nanos_since_epoch();
    nanos_of_reading(reading)
}

/// A point in time, in nanoseconds since the Unix epoch.
#[derive(Debug, Copy, Clone, Eq, PartialEq, Ord, PartialOrd, Structural)]
pub struct Timestamp(pub u64);

impl View for Timestamp {
    type V = u64;

    open spec fn view(&self) -> u64 {
        self.0
    }
}

impl Timestamp {
    /// A timestamp of `nanos` nanoseconds.
    pub fn new(nanos: u64) -> (t: Timestamp)
        ensures
            t@ == nanos,
    {
        Timestamp(nanos)
    }

    /// The wall clock's present reading.
    pub fn now() -> Timestamp {
        Timestamp::new(current_time_nanos())
    }

    /// The raw nanosecond count.
    pub fn as_nanos(&self) -> (nanos: u64)
        ensures
            nanos == self@,
    {
        self.0
    }

    /// Whole seconds since the epoch.
    pub fn seconds(&self) -> (secs: u64)
        ensures
            secs == self@ / 1_000_000_000,
    {
        self.0 / NANOS_PER_SECOND
    }

    /// Nanoseconds past the last whole second.
    pub fn subsec_nanos(&self) -> (nanos: u32)
        ensures
            nanos == self@ % 1_000_000_000,
            nanos < 1_000_000_000,
    {
        (self.0 % NANOS_PER_SECOND) as u32
    }
}

/// The timestamp that stands for a reading of the clock: the nanoseconds
/// since the epoch cut to their low 64 bits, and zero for a clock that
/// stands before the epoch.
pub open spec fn timestamp_of_reading(reading: Option<u128>) -> u64 {
    match reading {
        Some(nanos) => (nanos % 0x1_0000_0000_0000_0000) as u64,
        None => 0,
    }
}

/// The timestamp that stands for `reading`, which is what the clock gave:
/// the nanoseconds since the epoch, or `None` before the epoch.
pub fn nanos_of_reading(reading: Option<u128>) -> (nanos: u64)
    ensures
        nanos == timestamp_of_reading(reading),
        reading matches Some(since_epoch) ==> (since_epoch <= u64::MAX ==> nanos == since_epoch),
{
    match reading {
        Some(since_epoch) => (since_epoch % 0x1_0000_0000_0000_0000) as u64,
        None => 0,
    }
}

/// A price in fixed point: the value times `10^8`, as a signed integer.
#[derive(Debug, Copy, Clone, Eq, PartialEq, Ord, PartialOrd, Structural)]
pub struct Price(pub i64);

impl View for Price {
    type V = int;

    open spec fn view(&self) -> int {
        self.0 as int
    }
}

impl Price {
    /// Decimal places carried by a price.
    pub const DECIMALS: u32 = 8;

    /// Raw units in one whole unit of price.
    pub const MULTIPLIER: i64 = 100_000_000;

    /// The price whose fixed-point value is `raw`.
    pub fn from_raw(raw: i64) -> (p: Price)
        ensures
            p@ == raw,
    {
        Price(raw)
    }

    /// The raw fixed-point value.
    pub fn raw_value(&self) -> (raw: i64)
        ensures
            raw == self@,
    {
        self.0
    }

    /// Whether the price is above zero.
    pub fn is_positive(&self) -> (positive: bool)
        ensures
            positive == (self@ > 0),
    {
        self.0 > 0
    }
}

} // verus!
