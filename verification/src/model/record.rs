use crate::model::types::{Flags, Price, Quantity, RecordId, SymbolId, Timestamp};
use vstd::prelude::*;

verus! {

/// The widest vector register of the target: 64 bytes, aligned to 64. A record
/// carries an empty array of it, which adds no bytes and lifts the record onto
/// a cache line of its own.
#[verifier::external_type_specification]
#[verifier::external_body]
pub struct ExCacheLine(std::arch::x86_64::__m512i);

/// What a ring asks of the records it stores: a plain copyable value with a
/// sequence number, an instrument token and a validity test.
pub trait UltraLowLatencyRecord: Copy {
    /// The record's sequence number.
    spec fn sequence_num_of(&self) -> u64;

    /// The instrument that the record belongs to.
    spec fn token_of(&self) -> u64;

    /// Whether the record is well formed.
    spec fn is_valid(&self) -> bool;

    fn get_sequence_num(&self) -> (seq: u64)
        ensures
            seq == self.sequence_num_of(),
    ;

    fn get_token(&self) -> (token: u64)
        ensures
            token == self.token_of(),
    ;

    fn validate(&self) -> (ok: bool)
        ensures
            ok == self.is_valid(),
    ;
}

/// The record carries a full snapshot of the book.
pub const FLAG_SNAPSHOT: u8 = 0x01;

/// The record was replayed during recovery.
pub const FLAG_RECOVERY: u8 = 0x02;

/// The record repeats an earlier one.
pub const FLAG_DUPLICATE: u8 = 0x04;

/// The record is known to be out of date.
pub const FLAG_STALE: u8 = 0x08;

/// The record corrects an earlier one.
pub const FLAG_CORRECTED: u8 = 0x10;

/// The record belongs to the closing phase.
pub const FLAG_CLOSING: u8 = 0x20;

/// The record belongs to the opening phase.
pub const FLAG_OPENING: u8 = 0x40;

/// The record belongs to an auction.
pub const FLAG_AUCTION: u8 = 0x80;

/// One trade print, on a cache line of its own.
#[derive(Debug, Clone, Copy)]
pub struct Record {
    /// Unique record identifier.
    pub id: RecordId,
    /// Symbol identifier.
    pub symbol_id: SymbolId,
    /// Price, in fixed point.
    pub price: Price,
    /// Quantity.
    pub quantity: Quantity,
    /// Time of the print.
    pub timestamp: Timestamp,
    /// Status flags.
    pub flags: Flags,
    /// Alignment marker; holds nothing.
    pub line: [std::arch::x86_64::__m512i; 0],
}

impl Record {
    /// A record of the given values.
    pub fn new(
        id: RecordId,
        symbol_id: SymbolId,
        price: Price,
        quantity: Quantity,
        timestamp: Timestamp,
        flags: Flags,
    ) -> (r: Record)
        ensures
            r.id == id,
            r.symbol_id == symbol_id,
            r.price == price,
            r.quantity == quantity,
            r.timestamp == timestamp,
            r.flags == flags,
    {
        Record { id, symbol_id, price, quantity, timestamp, flags, line: [] }
    }

    /// A record of the given values, stamped with the wall clock's present
    /// reading.
    pub fn with_current_time(
        id: RecordId,
        symbol_id: SymbolId,
        price: Price,
        quantity: Quantity,
        flags: Flags,
    ) -> (r: Record)
        ensures
            r.id == id,
            r.symbol_id == symbol_id,
            r.price == price,
            r.quantity == quantity,
            r.flags == flags,
    {
        Record::new(id, symbol_id, price, quantity, Timestamp::now(), flags)
    }
}

impl Record {
    /// Replaces the price and leaves the rest.
    pub fn update_price(&mut self, new_price: Price)
        ensures
            *final(self) == (Record { price: new_price, ..*old(self) }),
    {
        self.price = new_price;
    }

    /// Replaces the quantity and leaves the rest.
    pub fn update_quantity(&mut self, new_quantity: Quantity)
        ensures
            *final(self) == (Record { quantity: new_quantity, ..*old(self) }),
    {
        self.quantity = new_quantity;
    }
}

impl UltraLowLatencyRecord for Record {
    /// A trade print is numbered by its identifier.
    open spec fn sequence_num_of(&self) -> u64 {
        self.id
    }

    open spec fn token_of(&self) -> u64 {
        self.symbol_id as u64
    }

    /// A print is well formed when it has a price above zero and a quantity.
    open spec fn is_valid(&self) -> bool {
        self.price@ > 0 && self.quantity > 0
    }

    fn get_sequence_num(&self) -> (seq: u64) {
        self.id
    }

    fn get_token(&self) -> (token: u64) {
        self.symbol_id as u64
    }

    fn validate(&self) -> (ok: bool) {
        self.price.is_positive() && self.quantity > 0
    }
}

/// One market-data update for one instrument: the top of the book and the
/// last trade, on a cache line of its own.
#[derive(Debug, Clone, Copy)]
pub struct MarketDataRecord {
    /// Instrument token.
    pub token: u64,
    /// Best bid.
    pub bid_price: Price,
    /// Best ask.
    pub ask_price: Price,
    /// Size at the best bid.
    pub bid_size: u32,
    /// Size at the best ask.
    pub ask_size: u32,
    /// Price of the last trade.
    pub last_price: Price,
    /// Size of the last trade.
    pub last_size: u32,
    /// Nanoseconds since the epoch.
    pub timestamp: u64,
    /// Sequence number, rising per instrument.
    pub sequence_num: u64,
    /// Status flags.
    pub flags: u8,
    /// Alignment marker; holds nothing.
    pub line: [std::arch::x86_64::__m512i; 0],
}

impl MarketDataRecord {
    /// A record of the given values.
    pub fn new(
        token: u64,
        bid_price: Price,
        ask_price: Price,
        bid_size: u32,
        ask_size: u32,
        last_price: Price,
        last_size: u32,
        sequence_num: u64,
        timestamp: u64,
        flags: u8,
    ) -> (r: MarketDataRecord)
        ensures
            r.token == token,
            r.bid_price == bid_price,
            r.ask_price == ask_price,
            r.bid_size == bid_size,
            r.ask_size == ask_size,
            r.last_price == last_price,
            r.last_size == last_size,
            r.sequence_num == sequence_num,
            r.timestamp == timestamp,
            r.flags == flags,
    {
        MarketDataRecord {
            token,
            bid_price,
            ask_price,
            bid_size,
            ask_size,
            last_price,
            last_size,
            timestamp,
            sequence_num,
            flags,
            line: [],
        }
    }

    /// Replaces the three prices and leaves the rest.
    pub fn update_prices(&mut self, bid: Price, ask: Price, last: Price)
        ensures
            *final(self) == (MarketDataRecord {
                bid_price: bid,
                ask_price: ask,
                last_price: last,
                ..*old(self)
            }),
    {
        self.bid_price = bid;
        self.ask_price = ask;
        self.last_price = last;
    }

    /// Replaces the three sizes and leaves the rest.
    pub fn update_sizes(&mut self, bid_size: u32, ask_size: u32, last_size: u32)
        ensures
            *final(self) == (MarketDataRecord { bid_size, ask_size, last_size, ..*old(self) }),
    {
        self.bid_size = bid_size;
        self.ask_size = ask_size;
        self.last_size = last_size;
    }

    /// The time of the update, in nanoseconds.
    pub fn get_timestamp(&self) -> (nanos: u64)
        ensures
            nanos == self.timestamp,
    {
        self.timestamp
    }

    /// The low 32 bits of the token.
    pub fn symbol_id(&self) -> (id: u32)
        ensures
            id == self.token % 0x1_0000_0000,
    {
        (self.token % 0x1_0000_0000) as u32
    }

    /// Whether every bit of `flag` is set.
    pub fn has_flag(&self, flag: u8) -> (set: bool)
        ensures
            set == (self.flags & flag != 0),
    {
        self.flags & flag != 0
    }

    /// Sets the bits of `flag`.
    pub fn set_flag(&mut self, flag: u8)
        ensures
            *final(self) == (MarketDataRecord { flags: old(self).flags | flag, ..*old(self) }),
    {
        self.flags = self.flags | flag;
    }

    /// Clears the bits of `flag`.
    pub fn clear_flag(&mut self, flag: u8)
        ensures
            *final(self) == (MarketDataRecord { flags: old(self).flags & !flag, ..*old(self) }),
    {
        self.flags = self.flags & !flag;
    }
}

impl UltraLowLatencyRecord for MarketDataRecord {
    open spec fn sequence_num_of(&self) -> u64 {
        self.sequence_num
    }

    open spec fn token_of(&self) -> u64 {
        self.token
    }

    /// A quote is well formed when the bid is above zero, the ask is not
    /// below the bid and both sides have size.
    open spec fn is_valid(&self) -> bool {
        &&& self.bid_price@ > 0
        &&& self.ask_price@ >= self.bid_price@
        &&& self.bid_size > 0
        &&& self.ask_size > 0
    }

    fn get_sequence_num(&self) -> (seq: u64) {
        self.sequence_num
    }

    fn get_token(&self) -> (token: u64) {
        self.token
    }

    fn validate(&self) -> (ok: bool) {
        self.bid_price.raw_value() > 0 && self.ask_price.raw_value() >= self.bid_price.raw_value()
            && self.bid_size > 0 && self.ask_size > 0
    }
}

impl PartialEq for Record {
    fn eq(&self, other: &Self) -> (same: bool) {
        self.id == other.id && self.symbol_id == other.symbol_id && self.price == other.price
            && self.quantity == other.quantity && self.timestamp == other.timestamp && self.flags
            == other.flags
    }
}

impl vstd::std_specs::cmp::PartialEqSpecImpl for Record {
    open spec fn obeys_eq_spec() -> bool {
        true
    }

    /// Two prints are equal when all their fields are.
    open spec fn eq_spec(&self, other: &Self) -> bool {
        self.id == other.id && self.symbol_id == other.symbol_id && self.price == other.price
            && self.quantity == other.quantity && self.timestamp == other.timestamp && self.flags
            == other.flags
    }
}

impl PartialEq for MarketDataRecord {
    fn eq(&self, other: &Self) -> (same: bool) {
        self.token == other.token && self.bid_price == other.bid_price && self.ask_price
            == other.ask_price && self.bid_size == other.bid_size && self.ask_size == other.ask_size
            && self.last_price == other.last_price && self.last_size == other.last_size
            && self.timestamp == other.timestamp && self.sequence_num == other.sequence_num
            && self.flags == other.flags
    }
}

impl vstd::std_specs::cmp::PartialEqSpecImpl for MarketDataRecord {
    open spec fn obeys_eq_spec() -> bool {
        true
    }

    /// Two records are equal when all their fields are.
    open spec fn eq_spec(&self, other: &Self) -> bool {
        self.token == other.token && self.bid_price == other.bid_price && self.ask_price
            == other.ask_price && self.bid_size == other.bid_size && self.ask_size == other.ask_size
            && self.last_price == other.last_price && self.last_size == other.last_size
            && self.timestamp == other.timestamp && self.sequence_num == other.sequence_num
            && self.flags == other.flags
    }
}

/// A record is its ten fields: two records that agree on all of them are
/// equal.
pub proof fn lemma_record_is_its_fields(a: MarketDataRecord, b: MarketDataRecord)
    requires
        a.token == b.token,
        a.bid_price == b.bid_price,
        a.ask_price == b.ask_price,
        a.bid_size == b.bid_size,
        a.ask_size == b.ask_size,
        a.last_price == b.last_price,
        a.last_size == b.last_size,
        a.timestamp == b.timestamp,
        a.sequence_num == b.sequence_num,
        a.flags == b.flags,
    ensures
        a == b,
{
    assert(a.line@ =~= b.line@);
    assert(a.line =~= b.line);
}

/// Running counts of what became of the records offered to a buffer.
#[derive(Debug, Clone, Copy, PartialEq, Eq, Structural)]
pub struct RecordStats {
    /// Records accepted.
    pub total_updates: u64,
    /// Records turned away as malformed.
    pub invalid_records: u64,
    /// Records turned away for being out of sequence.
    pub sequence_errors: u64,
}

/// A counter one step on; past the top it starts again at zero.
pub open spec fn bump(count: u64) -> u64 {
    if count == u64::MAX {
        0
    } else {
        (count + 1) as u64
    }
}

impl RecordStats {
    /// All counts at zero.
    pub fn new() -> (s: RecordStats)
        ensures
            s == (RecordStats { total_updates: 0, invalid_records: 0, sequence_errors: 0 }),
    {
        RecordStats { total_updates: 0, invalid_records: 0, sequence_errors: 0 }
    }

    /// Counts one accepted record.
    pub fn increment_updates(&mut self)
        ensures
            *final(self) == (RecordStats {
                total_updates: bump(old(self).total_updates),
                ..*old(self)
            }),
    {
        self.total_updates = self.total_updates.wrapping_add(1);
    }

    /// Counts one malformed record.
    pub fn increment_invalid(&mut self)
        ensures
            *final(self) == (RecordStats {
                invalid_records: bump(old(self).invalid_records),
                ..*old(self)
            }),
    {
        self.invalid_records = self.invalid_records.wrapping_add(1);
    }

    /// Counts one record that was turned away for being out of sequence.
    pub fn increment_sequence_errors(&mut self)
        ensures
            *final(self) == (RecordStats {
                sequence_errors: bump(old(self).sequence_errors),
                ..*old(self)
            }),
    {
        self.sequence_errors = self.sequence_errors.wrapping_add(1);
    }
}

} // verus!
