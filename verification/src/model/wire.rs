//! The byte form of a market-data record: 64 bytes, integers little-endian.
//!
//! | bytes  | field          |
//! |--------|----------------|
//! | 0..8   | `token`        |
//! | 8..16  | `bid_price`    |
//! | 16..24 | `ask_price`    |
//! | 24..32 | `last_price`   |
//! | 32..40 | `timestamp`    |
//! | 40..48 | `sequence_num` |
//! | 48..52 | `bid_size`     |
//! | 52..56 | `ask_size`     |
//! | 56..60 | `last_size`    |
//! | 60     | `flags`        |
//! | 61..64 | zero           |

use crate::model::record::MarketDataRecord;
use crate::model::types::Price;
use vstd::bytes::{
    lemma_auto_spec_u32_to_from_le_bytes, lemma_auto_spec_u64_to_from_le_bytes,
    spec_u32_from_le_bytes, spec_u32_to_le_bytes, spec_u64_from_le_bytes, spec_u64_to_le_bytes,
    u32_from_le_bytes, u32_to_le_bytes, u64_from_le_bytes, u64_to_le_bytes,
};
use vstd::prelude::*;
use vstd::slice::slice_subrange;

verus! {

/// The length of a record's byte form.
pub const RECORD_SIZE: usize = 64;

/// A price's raw value, read as an unsigned word of the same bits.
pub open spec fn price_bits(price: Price) -> u64 {
    price.0 as u64
}

/// The price whose raw value has the bits of `bits`.
pub open spec fn price_of_bits(bits: u64) -> Price {
    Price(bits as i64)
}

proof fn lemma_price_bits_round_trip(raw: i64)
    by (bit_vector)
    ensures
        (raw as u64) as i64 == raw,
{
}

fn bits_of_price(price: Price) -> (bits: u64)
    ensures
        bits == price_bits(price),
{
    #[verifier::truncate]
    (price.0 as u64)
}

fn price_from_bits(bits: u64) -> (price: Price)
    ensures
        price == price_of_bits(bits),
{
    Price(
        #[verifier::truncate]
        (bits as i64),
    )
}

/// The 64 bytes that stand for `record`.
pub open spec fn wire_of(record: MarketDataRecord) -> Seq<u8> {
    spec_u64_to_le_bytes(record.token) + spec_u64_to_le_bytes(price_bits(record.bid_price))
        + spec_u64_to_le_bytes(price_bits(record.ask_price)) + spec_u64_to_le_bytes(
        price_bits(record.last_price),
    ) + spec_u64_to_le_bytes(record.timestamp) + spec_u64_to_le_bytes(record.sequence_num)
        + spec_u32_to_le_bytes(record.bid_size) + spec_u32_to_le_bytes(record.ask_size)
        + spec_u32_to_le_bytes(record.last_size) + seq![record.flags, 0u8, 0u8, 0u8]
}

/// Whether `bytes` is read as `record`: each field is what its place in
/// `bytes` holds. The last three bytes are not looked at.
pub open spec fn decodes_to(bytes: Seq<u8>, record: MarketDataRecord) -> bool {
    &&& bytes.len() == 64
    &&& record.token == spec_u64_from_le_bytes(bytes.subrange(0, 8))
    &&& record.bid_price == price_of_bits(spec_u64_from_le_bytes(bytes.subrange(8, 16)))
    &&& record.ask_price == price_of_bits(spec_u64_from_le_bytes(bytes.subrange(16, 24)))
    &&& record.last_price == price_of_bits(spec_u64_from_le_bytes(bytes.subrange(24, 32)))
    &&& record.timestamp == spec_u64_from_le_bytes(bytes.subrange(32, 40))
    &&& record.sequence_num == spec_u64_from_le_bytes(bytes.subrange(40, 48))
    &&& record.bid_size == spec_u32_from_le_bytes(bytes.subrange(48, 52))
    &&& record.ask_size == spec_u32_from_le_bytes(bytes.subrange(52, 56))
    &&& record.last_size == spec_u32_from_le_bytes(bytes.subrange(56, 60))
    &&& record.flags == bytes[60]
}

/// The byte form of a record is 64 bytes long and is read back as that
/// record.
pub proof fn lemma_wire_round_trip(record: MarketDataRecord)
    ensures
        wire_of(record).len() == 64,
        decodes_to(wire_of(record), record),
{
    lemma_auto_spec_u64_to_from_le_bytes();
    lemma_auto_spec_u32_to_from_le_bytes();
    let bytes = wire_of(record);
    let token = spec_u64_to_le_bytes(record.token);
    let bid = spec_u64_to_le_bytes(price_bits(record.bid_price));
    let ask = spec_u64_to_le_bytes(price_bits(record.ask_price));
    let last = spec_u64_to_le_bytes(price_bits(record.last_price));
    let timestamp = spec_u64_to_le_bytes(record.timestamp);
    let sequence = spec_u64_to_le_bytes(record.sequence_num);
    let bid_size = spec_u32_to_le_bytes(record.bid_size);
    let ask_size = spec_u32_to_le_bytes(record.ask_size);
    let last_size = spec_u32_to_le_bytes(record.last_size);
    assert(bytes.len() == 64);
    assert(bytes.subrange(0, 8) =~= token);
    assert(bytes.subrange(8, 16) =~= bid);
    assert(bytes.subrange(16, 24) =~= ask);
    assert(bytes.subrange(24, 32) =~= last);
    assert(bytes.subrange(32, 40) =~= timestamp);
    assert(bytes.subrange(40, 48) =~= sequence);
    assert(bytes.subrange(48, 52) =~= bid_size);
    assert(bytes.subrange(52, 56) =~= ask_size);
    assert(bytes.subrange(56, 60) =~= last_size);
    lemma_price_bits_round_trip(record.bid_price.0);
    lemma_price_bits_round_trip(record.ask_price.0);
    lemma_price_bits_round_trip(record.last_price.0);
}

/// Bytes are read as at most one record.
pub proof fn lemma_decoding_is_unique(bytes: Seq<u8>, a: MarketDataRecord, b: MarketDataRecord)
    requires
        decodes_to(bytes, a),
        decodes_to(bytes, b),
    ensures
        a == b,
{
    crate::model::record::lemma_record_is_its_fields(a, b);
}

impl MarketDataRecord {
    /// The record's byte form.
    pub fn to_bytes(&self) -> (bytes: Vec<u8>)
        ensures
            bytes@ == wire_of(*self),
            bytes@.len() == 64,
    {
        let mut out: Vec<u8> = Vec::with_capacity(RECORD_SIZE);
        let mut part = u64_to_le_bytes(self.token);
        out.append(&mut part);
        let mut part = u64_to_le_bytes(bits_of_price(self.bid_price));
        out.append(&mut part);
        let mut part = u64_to_le_bytes(bits_of_price(self.ask_price));
        out.append(&mut part);
        let mut part = u64_to_le_bytes(bits_of_price(self.last_price));
        out.append(&mut part);
        let mut part = u64_to_le_bytes(self.timestamp);
        out.append(&mut part);
        let mut part = u64_to_le_bytes(self.sequence_num);
        out.append(&mut part);
        let mut part = u32_to_le_bytes(self.bid_size);
        out.append(&mut part);
        let mut part = u32_to_le_bytes(self.ask_size);
        out.append(&mut part);
        let mut part = u32_to_le_bytes(self.last_size);
        out.append(&mut part);
        out.push(self.flags);
        out.push(0);
        out.push(0);
        out.push(0);
        proof {
            lemma_wire_round_trip(*self);
            assert(out@ =~= wire_of(*self));
        }
        out
    }

    /// The record that `bytes` stands for, or `None` where `bytes` is not 64
    /// bytes long.
    pub fn from_bytes(bytes: &[u8]) -> (record: Option<MarketDataRecord>)
        ensures
            record.is_some() <==> bytes@.len() == 64,
            record matches Some(r) ==> decodes_to(bytes@, r),
    {
        if bytes.len() != RECORD_SIZE {
            return None;
        }
        let token = u64_from_le_bytes(slice_subrange(bytes, 0, 8));
        let bid_price = price_from_bits(u64_from_le_bytes(slice_subrange(bytes, 8, 16)));
        let ask_price = price_from_bits(u64_from_le_bytes(slice_subrange(bytes, 16, 24)));
        let last_price = price_from_bits(u64_from_le_bytes(slice_subrange(bytes, 24, 32)));
        let timestamp = u64_from_le_bytes(slice_subrange(bytes, 32, 40));
        let sequence_num = u64_from_le_bytes(slice_subrange(bytes, 40, 48));
        let bid_size = u32_from_le_bytes(slice_subrange(bytes, 48, 52));
        let ask_size = u32_from_le_bytes(slice_subrange(bytes, 52, 56));
        let last_size = u32_from_le_bytes(slice_subrange(bytes, 56, 60));
        let flags = bytes[60];
        Some(
            MarketDataRecord::new(
                token,
                bid_price,
                ask_price,
                bid_size,
                ask_size,
                last_price,
                last_size,
                sequence_num,
                timestamp,
                flags,
            ),
        )
    }
}

} // verus!
