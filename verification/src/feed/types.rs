use crate::model::config::BufferType;
use crate::model::record::{bump, lemma_record_is_its_fields, MarketDataRecord};
use crate::model::types::{Price, Timestamp};
use vstd::prelude::*;

verus! {

/// Where a feed message comes from.
#[derive(Debug, Clone, Copy, PartialEq, Eq, Structural)]
pub enum FeedSource {
    PrimaryExchange,
    SecondaryVenue,
    DarkPool,
    Reference,
}

/// What a feed message carries.
#[derive(Debug, Clone, Copy, PartialEq, Eq, Structural)]
pub enum MessageType {
    L1Update,
    L2Update,
    Trade,
    ReferenceData,
    HeartBeat,
}

/// The side of a trade.
#[derive(Debug, Clone, Copy, PartialEq, Eq, Structural)]
pub enum TradeSide {
    Buy,
    Sell,
}

impl MessageType {
    /// The ring that a message of this type belongs in: quotes to the quote
    /// ring, depth updates and trades to the trade ring, reference data to
    /// the reference ring. A heartbeat belongs in none.
    pub open spec fn ring_kind(self) -> Option<BufferType> {
        match self {
            MessageType::L1Update => Some(BufferType::L1Price),
            MessageType::L2Update => Some(BufferType::L2Trade),
            MessageType::Trade => Some(BufferType::L2Trade),
            MessageType::ReferenceData => Some(BufferType::Reference),
            MessageType::HeartBeat => None,
        }
    }

    /// The ring that a message of this type belongs in, if any.
    pub fn buffer_type(&self) -> (kind: Option<BufferType>)
        ensures
            kind == self.ring_kind(),
    {
        match self {
            MessageType::L1Update => Some(BufferType::L1Price),
            MessageType::L2Update => Some(BufferType::L2Trade),
            MessageType::Trade => Some(BufferType::L2Trade),
            MessageType::ReferenceData => Some(BufferType::Reference),
            MessageType::HeartBeat => None,
        }
    }
}

/// One update as it arrives from a feed.
#[derive(Debug, Clone, Copy, PartialEq, Eq, Structural)]
pub struct FeedMessage {
    pub token: u64,
    pub bid_price: Price,
    pub ask_price: Price,
    pub bid_size: u32,
    pub ask_size: u32,
    pub last_price: Price,
    pub last_size: u32,
    pub timestamp: u64,
    pub sequence_num: u64,
    pub flags: u8,
    pub source: FeedSource,
    pub message_type: MessageType,
}

impl FeedMessage {
    /// A message of the given values, without flags, stamped with the wall
    /// clock's present reading.
    pub fn new(
        token: u64,
        bid_price: Price,
        ask_price: Price,
        bid_size: u32,
        ask_size: u32,
        last_price: Price,
        last_size: u32,
        sequence_num: u64,
        source: FeedSource,
        message_type: MessageType,
    ) -> (m: FeedMessage)
        ensures
            m == (FeedMessage {
                token,
                bid_price,
                ask_price,
                bid_size,
                ask_size,
                last_price,
                last_size,
                timestamp: m.timestamp,
                sequence_num,
                flags: 0,
                source,
                message_type,
            }),
    {
        FeedMessage {
            token,
            bid_price,
            ask_price,
            bid_size,
            ask_size,
            last_price,
            last_size,
            timestamp: Timestamp::now().as_nanos(),
            sequence_num,
            flags: 0,
            source,
            message_type,
        }
    }

    /// The message that opens a connection and keeps it alive: all zero.
    pub fn heartbeat() -> (m: FeedMessage)
        ensures
            m.message_type == MessageType::HeartBeat,
            m.source == FeedSource::PrimaryExchange,
            m.token == 0,
            m.sequence_num == 0,
            m.flags == 0,
            m.bid_price@ == 0 && m.ask_price@ == 0 && m.last_price@ == 0,
            m.bid_size == 0 && m.ask_size == 0 && m.last_size == 0,
            !m.valid(),
    {
        FeedMessage::new(
            0,
            Price::from_raw(0),
            Price::from_raw(0),
            0,
            0,
            Price::from_raw(0),
            0,
            0,
            FeedSource::PrimaryExchange,
            MessageType::HeartBeat,
        )
    }

    /// A message is well formed when the bid is above zero, the ask is not
    /// below the bid and both sides have size.
    pub open spec fn valid(&self) -> bool {
        &&& self.bid_price@ > 0
        &&& self.ask_price@ >= self.bid_price@
        &&& self.bid_size > 0
        &&& self.ask_size > 0
    }

    /// Whether the message is well formed.
    pub fn is_valid(&self) -> (ok: bool)
        ensures
            ok == self.valid(),
    {
        self.bid_price.raw_value() > 0 && self.ask_price.raw_value() >= self.bid_price.raw_value()
            && self.bid_size > 0 && self.ask_size > 0
    }

    /// Sets the bits of `flag`.
    pub fn set_flag(&mut self, flag: u8)
        ensures
            *final(self) == (FeedMessage { flags: old(self).flags | flag, ..*old(self) }),
    {
        self.flags = self.flags | flag;
    }

    /// Clears the bits of `flag`.
    pub fn clear_flag(&mut self, flag: u8)
        ensures
            *final(self) == (FeedMessage { flags: old(self).flags & !flag, ..*old(self) }),
    {
        self.flags = self.flags & !flag;
    }

    /// Whether any bit of `flag` is set.
    pub fn has_flag(&self, flag: u8) -> (set: bool)
        ensures
            set == (self.flags & flag != 0),
    {
        self.flags & flag != 0
    }

    /// Whether `record` holds the values of this message.
    pub open spec fn stored_as(&self, record: MarketDataRecord) -> bool {
        &&& record.token == self.token
        &&& record.bid_price == self.bid_price
        &&& record.ask_price == self.ask_price
        &&& record.bid_size == self.bid_size
        &&& record.ask_size == self.ask_size
        &&& record.last_price == self.last_price
        &&& record.last_size == self.last_size
        &&& record.timestamp == self.timestamp
        &&& record.sequence_num == self.sequence_num
        &&& record.flags == self.flags
    }

    /// The record that stores this message: the same values, without the
    /// source and the type.
    pub open spec fn record(&self) -> MarketDataRecord {
        choose|record: MarketDataRecord| self.stored_as(record)
    }

    /// The record that stores this message.
    pub fn to_record(&self) -> (r: MarketDataRecord)
        ensures
            r == self.record(),
            self.stored_as(r),
    {
        let r = MarketDataRecord::new(
            self.token,
            self.bid_price,
            self.ask_price,
            self.bid_size,
            self.ask_size,
            self.last_price,
            self.last_size,
            self.sequence_num,
            self.timestamp,
            self.flags,
        );
        proof {
            assert(self.stored_as(r));
            lemma_record_is_its_fields(r, self.record());
        }
        r
    }
}

/// Running counts of one feed connection.
#[derive(Debug, Clone, Copy, PartialEq, Eq, Structural)]
pub struct FeedStats {
    /// Frames that arrived.
    pub messages_received: u64,
    /// Messages that were stored.
    pub messages_processed: u64,
    /// Messages that were malformed, or that the store turned away.
    pub invalid_messages: u64,
    /// Time spent storing, in nanoseconds.
    pub processing_time_ns: u64,
}

impl Default for FeedStats {
    fn default() -> (s: FeedStats)
        ensures
            s == (FeedStats {
                messages_received: 0,
                messages_processed: 0,
                invalid_messages: 0,
                processing_time_ns: 0,
            }),
    {
        FeedStats {
            messages_received: 0,
            messages_processed: 0,
            invalid_messages: 0,
            processing_time_ns: 0,
        }
    }
}

/// A frame as it comes off a connection.
#[derive(Debug, Clone, Copy, PartialEq, Eq, Structural)]
pub enum Frame {
    /// A frame that is not text.
    Other,
    /// A text frame that does not hold a message.
    Unreadable,
    /// A text frame that holds this message.
    Message(FeedMessage),
}

/// What is to be done with a frame.
#[derive(Debug, Clone, Copy, PartialEq, Eq, Structural)]
pub enum FeedAction {
    /// Nothing: the frame is not text.
    Skip,
    /// Nothing: the frame was counted as invalid.
    Reject,
    /// Hand this message to the store, then report with `on_processed`.
    Process(FeedMessage),
}

/// The sum of two counts, starting again from zero past the top.
pub open spec fn wrapping_sum(a: u64, b: u64) -> u64 {
    if a + b > u64::MAX {
        (a + b - u64::MAX - 1) as u64
    } else {
        (a + b) as u64
    }
}

impl FeedStats {
    /// What is to be done with `frame`: a well-formed message is processed,
    /// another text frame is rejected, anything else is skipped.
    pub open spec fn action_for(frame: Frame) -> FeedAction {
        match frame {
            Frame::Other => FeedAction::Skip,
            Frame::Unreadable => FeedAction::Reject,
            Frame::Message(message) => if message.valid() {
                FeedAction::Process(message)
            } else {
                FeedAction::Reject
            },
        }
    }

    /// The counts after `frame` arrived: one more frame received, and one
    /// more invalid message if the frame is rejected.
    pub open spec fn after_frame(self, frame: Frame) -> FeedStats {
        FeedStats {
            messages_received: bump(self.messages_received),
            invalid_messages: if Self::action_for(frame) == FeedAction::Reject {
                bump(self.invalid_messages)
            } else {
                self.invalid_messages
            },
            ..self
        }
    }

    /// The counts after the store reported on a message: stored, and the
    /// time it took; or turned away.
    pub open spec fn after_processed(self, stored: bool, elapsed_ns: u64) -> FeedStats {
        if stored {
            FeedStats {
                messages_processed: bump(self.messages_processed),
                processing_time_ns: wrapping_sum(self.processing_time_ns, elapsed_ns),
                ..self
            }
        } else {
            FeedStats { invalid_messages: bump(self.invalid_messages), ..self }
        }
    }

    /// Counts `frame` and says what is to be done with it.
    pub fn on_frame(&mut self, frame: Frame) -> (action: FeedAction)
        ensures
            action == Self::action_for(frame),
            *final(self) == old(self).after_frame(frame),
    {
        self.messages_received = self.messages_received.wrapping_add(1);
        match frame {
            Frame::Other => FeedAction::Skip,
            Frame::Unreadable => {
                self.invalid_messages = self.invalid_messages.wrapping_add(1);
                FeedAction::Reject
            },
            Frame::Message(message) => {
                if message.is_valid() {
                    FeedAction::Process(message)
                } else {
                    self.invalid_messages = self.invalid_messages.wrapping_add(1);
                    FeedAction::Reject
                }
            },
        }
    }

    /// Counts the store's report on a message that was handed to it.
    pub fn on_processed(&mut self, stored: bool, elapsed_ns: u64)
        ensures
            *final(self) == old(self).after_processed(stored, elapsed_ns),
    {
        if stored {
            self.messages_processed = self.messages_processed.wrapping_add(1);
            self.processing_time_ns = self.processing_time_ns.wrapping_add(elapsed_ns);
        } else {
            self.invalid_messages = self.invalid_messages.wrapping_add(1);
        }
    }
}

} // verus!
