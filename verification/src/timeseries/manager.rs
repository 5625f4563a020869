use crate::feed::types::wrapping_sum;
use crate::model::record::{bump, MarketDataRecord};
use crate::model::wire::{decodes_to, lemma_decoding_is_unique, lemma_wire_round_trip, wire_of};
use vstd::prelude::*;

verus! {

/// The error type of the block coder.
#[verifier::external_type_specification]
#[verifier::external_body]
pub struct ExIoError(std::io::Error);

/// How hard the archive tries to shrink what it stores.
#[derive(Debug, Clone, Copy, PartialEq, Eq, Structural)]
pub enum CompressionLevel {
    Off,
    Low,
    Medium,
    High,
}

/// Settings of the archive.
#[derive(Debug, Clone, Copy, PartialEq, Eq, Structural)]
pub struct TimeSeriesConfig {
    pub partition_size_mb: usize,
    pub compression_level: CompressionLevel,
    pub cleanup_interval_sec: u64,
    pub retention_days: u32,
}

impl Default for TimeSeriesConfig {
    fn default() -> (c: TimeSeriesConfig)
        ensures
            c == (TimeSeriesConfig {
                partition_size_mb: 256,
                compression_level: CompressionLevel::High,
                cleanup_interval_sec: 3600,
                retention_days: 30,
            }),
    {
        TimeSeriesConfig {
            partition_size_mb: 256,
            compression_level: CompressionLevel::High,
            cleanup_interval_sec: 3600,
            retention_days: 30,
        }
    }
}

/// Why a payload could not be packed or unpacked.
#[derive(Debug, Clone, Copy, PartialEq, Eq, Structural)]
pub enum ArchiveError {
    /// The block coder could not compress the payload.
    Compression,
    /// The block coder could not make sense of the stored bytes.
    Decompression,
    /// The bytes are not the byte form of a record.
    Malformed,
}

/// Payloads of more bytes than this are worth compressing.
pub const COMPRESSION_THRESHOLD: usize = 1024;

/// What `lz4::block::compress` makes of `input` in its default mode with the
/// length prepended; `None` where it reports an error.
pub uninterp spec fn lz4_block(input: Seq<u8>) -> Option<Seq<u8>>;

/// What `lz4::block::decompress` makes of `block` when it reads the length
/// from the block's first four bytes; `None` where it reports an error.
pub uninterp spec fn lz4_unblock(block: Seq<u8>) -> Option<Seq<u8>>;

/// `lz4::block::compress(src, None, true)`. The answer is a function of
/// `src` alone. Input longer than `i32::MAX` bytes is an error, and what was
/// compressed decompresses to the input again, as the coder's documentation
/// shows.
#[verifier::external_body]
fn lz4_compress(src: &[u8]) -> (r: Result<Vec<u8>, std::io::Error>)
    ensures
        (match r {
            Ok(block) => Some(block@),
            Err(_) => None,
        }) == lz4_block(src@),
        src@.len() > i32::MAX ==> r.is_err(),
        r matches Ok(block) ==> lz4_unblock(block@) == Some(src@),
{
    lz4::block::compress(src, None, true)
}

/// `lz4::block::decompress(block, None)`. The answer is a function of
/// `block` alone. Fewer than four bytes are an error.
#[verifier::external_body]
fn lz4_decompress(block: &[u8]) -> (r: Result<Vec<u8>, std::io::Error>)
    ensures
        (match r {
            Ok(bytes) => Some(bytes@),
            Err(_) => None,
        }) == lz4_unblock(block@),
        block@.len() < 4 ==> r.is_err(),
{
    lz4::block::decompress(block, None)
}

/// Whether a payload of `len` bytes is compressed at `level`: only above the
/// threshold, and only if compression is switched on at all.
pub open spec fn compresses(len: nat, level: CompressionLevel) -> bool {
    len > 1024 && level != CompressionLevel::Off
}

/// Whether a payload of `len` bytes is compressed at `level`.
pub fn should_compress(len: usize, level: CompressionLevel) -> (yes: bool)
    ensures
        yes == compresses(len as nat, level),
{
    let on = match level {
        CompressionLevel::Off => false,
        _ => true,
    };
    len > COMPRESSION_THRESHOLD && on
}

/// What is stored for `payload`, given what the block coder makes of it: the
/// block and `true` where the payload is compressed, the payload itself and
/// `false` where it is not.
pub open spec fn stored_form(
    payload: Seq<u8>,
    level: CompressionLevel,
    block: Option<Seq<u8>>,
) -> Result<(Seq<u8>, bool), ArchiveError> {
    if compresses(payload.len(), level) {
        match block {
            Some(bytes) => Ok((bytes, true)),
            None => Err(ArchiveError::Compression),
        }
    } else {
        Ok((payload, false))
    }
}

/// The stored form of `payload` once the block coder has answered with
/// `block`, which matters only where the payload is compressed.
pub fn seal_payload(payload: Vec<u8>, level: CompressionLevel, block: Option<Vec<u8>>) -> (r:
    Result<(Vec<u8>, bool), ArchiveError>)
    ensures
        (match r {
            Ok((bytes, compressed)) => Ok((bytes@, compressed)),
            Err(e) => Err(e),
        }) == stored_form(
            payload@,
            level,
            match block {
                Some(bytes) => Some(bytes@),
                None => None,
            },
        ),
{
    if should_compress(payload.len(), level) {
        match block {
            Some(bytes) => Ok((bytes, true)),
            None => Err(ArchiveError::Compression),
        }
    } else {
        Ok((payload, false))
    }
}

/// Packs `payload` for storing: compressed where `should_compress` says so,
/// unchanged otherwise. The second part of the answer says which.
pub fn encode_payload(payload: Vec<u8>, level: CompressionLevel) -> (r: Result<
    (Vec<u8>, bool),
    ArchiveError,
>)
    ensures
        (match r {
            Ok((bytes, compressed)) => Ok((bytes@, compressed)),
            Err(e) => Err(e),
        }) == stored_form(payload@, level, lz4_block(payload@)),
        r matches Ok((bytes, compressed)) ==> (if compressed {
            lz4_unblock(bytes@) == Some(payload@)
        } else {
            bytes@ == payload@
        }),
        !compresses(payload@.len(), level) ==> r.is_ok(),
{
    if should_compress(payload.len(), level) {
        let block = match lz4_compress(payload.as_slice()) {
            Ok(bytes) => Some(bytes),
            Err(_) => None,
        };
        seal_payload(payload, level, block)
    } else {
        seal_payload(payload, level, None)
    }
}

/// What `stored` was before it was packed, given what the block coder makes
/// of it: where it was compressed, what the coder reads out of it; where
/// not, itself.
pub open spec fn opened_form(stored: Seq<u8>, compressed: bool, unblocked: Option<Seq<u8>>) -> Result<
    Seq<u8>,
    ArchiveError,
> {
    if compressed {
        match unblocked {
            Some(bytes) => Ok(bytes),
            None => Err(ArchiveError::Decompression),
        }
    } else {
        Ok(stored)
    }
}

/// Unpacks what `encode_payload` packed; `compressed` is the second part of
/// its answer.
pub fn decode_payload(stored: Vec<u8>, compressed: bool) -> (r: Result<Vec<u8>, ArchiveError>)
    ensures
        (match r {
            Ok(bytes) => Ok(bytes@),
            Err(e) => Err(e),
        }) == opened_form(stored@, compressed, lz4_unblock(stored@)),
{
    if compressed {
        match lz4_decompress(stored.as_slice()) {
            Ok(bytes) => Ok(bytes),
            Err(_) => Err(ArchiveError::Decompression),
        }
    } else {
        Ok(stored)
    }
}

/// What was packed unpacks to what it was: for every answer that packing
/// can give for `payload`, unpacking gives `payload` back.
pub proof fn lemma_payload_round_trip(
    payload: Seq<u8>,
    level: CompressionLevel,
    stored: Seq<u8>,
    compressed: bool,
)
    requires
        stored_form(payload, level, lz4_block(payload)) == Ok::<(Seq<u8>, bool), ArchiveError>(
            (stored, compressed),
        ),
        compressed ==> lz4_unblock(stored) == Some(payload),
    ensures
        opened_form(stored, compressed, lz4_unblock(stored)) == Ok::<Seq<u8>, ArchiveError>(
            payload,
        ),
{
}

/// The record that `bytes` stands for; anything that is not the byte form
/// of a record is malformed.
pub fn record_from_payload(bytes: &[u8]) -> (r: Result<MarketDataRecord, ArchiveError>)
    ensures
        r.is_ok() <==> bytes@.len() == 64,
        r matches Ok(record) ==> decodes_to(bytes@, record),
        r matches Err(e) ==> e == ArchiveError::Malformed,
{
    match MarketDataRecord::from_bytes(bytes) {
        Some(record) => Ok(record),
        None => Err(ArchiveError::Malformed),
    }
}

/// Reads a stored record back. Stored bytes of a record's own length are the
/// record; anything else is taken for a compressed block.
pub fn decode_record(stored: &[u8]) -> (r: Result<MarketDataRecord, ArchiveError>)
    ensures
        stored@.len() == 64 ==> r.is_ok(),
        stored@.len() == 64 ==> (r matches Ok(record) && decodes_to(stored@, record)),
        stored@.len() != 64 ==> (match lz4_unblock(stored@) {
            None => r == Err::<MarketDataRecord, ArchiveError>(ArchiveError::Decompression),
            Some(bytes) => if bytes.len() == 64 {
                r matches Ok(record) && decodes_to(bytes, record)
            } else {
                r == Err::<MarketDataRecord, ArchiveError>(ArchiveError::Malformed)
            },
        }),
{
    if stored.len() == 64 {
        record_from_payload(stored)
    } else {
        match lz4_decompress(stored) {
            Ok(bytes) => record_from_payload(bytes.as_slice()),
            Err(_) => Err(ArchiveError::Decompression),
        }
    }
}

/// Packs `record` for storing. A record's byte form is below the threshold,
/// so it is stored as it is, whatever the level.
pub fn encode_record(record: &MarketDataRecord, level: CompressionLevel) -> (r: Result<
    (Vec<u8>, bool),
    ArchiveError,
>)
    ensures
        r matches Ok((bytes, compressed)) && bytes@ == wire_of(*record) && !compressed,
{
    encode_payload(record.to_bytes(), level)
}

/// A record that is packed and read back is the same record.
pub proof fn lemma_stored_record_reads_back(record: MarketDataRecord, read: MarketDataRecord)
    requires
        decodes_to(wire_of(record), read),
    ensures
        read == record,
{
    lemma_wire_round_trip(record);
    lemma_decoding_is_unique(wire_of(record), record, read);
}

/// Running counts of the archive.
#[derive(Debug, Clone, Copy, PartialEq, Eq, Structural)]
pub struct TimeSeriesStats {
    /// Records stored.
    pub records_stored: u64,
    /// Bytes stored.
    pub bytes_written: u64,
    /// Size before compression over size after, times 1000, of the last
    /// payload that was compressed.
    pub compression_ratio: u64,
    /// Time spent storing, in nanoseconds.
    pub write_latency_ns: u64,
    /// Time spent querying, in nanoseconds.
    pub query_latency_ns: u64,
    /// The shortest store so far.
    pub min_write_latency_ns: u64,
    /// The longest store so far.
    pub max_write_latency_ns: u64,
}

/// Size before over size after, times 1000 and rounded down, held to 64 bits.
pub open spec fn ratio_per_mille(raw_len: nat, stored_len: nat) -> u64 {
    if raw_len * 1000 / stored_len > u64::MAX {
        u64::MAX
    } else {
        (raw_len * 1000 / stored_len) as u64
    }
}

impl TimeSeriesStats {
    /// Counts before anything was stored.
    pub fn new() -> (s: TimeSeriesStats)
        ensures
            s == (TimeSeriesStats {
                records_stored: 0,
                bytes_written: 0,
                compression_ratio: 0,
                write_latency_ns: 0,
                query_latency_ns: 0,
                min_write_latency_ns: u64::MAX,
                max_write_latency_ns: 0,
            }),
    {
        TimeSeriesStats {
            records_stored: 0,
            bytes_written: 0,
            compression_ratio: 0,
            write_latency_ns: 0,
            query_latency_ns: 0,
            min_write_latency_ns: u64::MAX,
            max_write_latency_ns: 0,
        }
    }

    /// The counts after a payload of `raw_len` bytes was stored as
    /// `stored_len` bytes in `latency_ns` nanoseconds.
    pub open spec fn after_write(
        self,
        raw_len: usize,
        stored_len: usize,
        compressed: bool,
        latency_ns: u64,
    ) -> TimeSeriesStats {
        TimeSeriesStats {
            records_stored: bump(self.records_stored),
            bytes_written: wrapping_sum(self.bytes_written, stored_len as u64),
            compression_ratio: if compressed && stored_len > 0 {
                ratio_per_mille(raw_len as nat, stored_len as nat)
            } else {
                self.compression_ratio
            },
            write_latency_ns: wrapping_sum(self.write_latency_ns, latency_ns),
            query_latency_ns: self.query_latency_ns,
            min_write_latency_ns: if latency_ns < self.min_write_latency_ns {
                latency_ns
            } else {
                self.min_write_latency_ns
            },
            max_write_latency_ns: if latency_ns > self.max_write_latency_ns {
                latency_ns
            } else {
                self.max_write_latency_ns
            },
        }
    }

    /// Counts one stored payload.
    pub fn record_write(
        &mut self,
        raw_len: usize,
        stored_len: usize,
        compressed: bool,
        latency_ns: u64,
    )
        ensures
            *final(self) == old(self).after_write(raw_len, stored_len, compressed, latency_ns),
    {
        self.records_stored = self.records_stored.wrapping_add(1);
        self.bytes_written = self.bytes_written.wrapping_add(stored_len as u64);
        if compressed && stored_len > 0 {
            let scaled: u128 = raw_len as u128 * 1000;
            let ratio: u128 = scaled / (stored_len as u128);
            self.compression_ratio = if ratio > u64::MAX as u128 {
                u64::MAX
            } else {
                ratio as u64
            };
        }
        self.write_latency_ns = self.write_latency_ns.wrapping_add(latency_ns);
        if latency_ns < self.min_write_latency_ns {
            self.min_write_latency_ns = latency_ns;
        }
        if latency_ns > self.max_write_latency_ns {
            self.max_write_latency_ns = latency_ns;
        }
    }

    /// Counts one query that took `latency_ns` nanoseconds.
    pub fn record_query(&mut self, latency_ns: u64)
        ensures
            *final(self) == (TimeSeriesStats {
                query_latency_ns: wrapping_sum(old(self).query_latency_ns, latency_ns),
                ..*old(self)
            }),
    {
        self.query_latency_ns = self.query_latency_ns.wrapping_add(latency_ns);
    }
}

} // verus!
