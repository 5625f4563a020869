use crate::feed::types::FeedMessage;
use crate::memory::buffer_manager::{InstrumentBufferManager, ManagerState};
use crate::memory::ring_buffer::{RingError, WriteOutcome};
use crate::model::config::{BufferType, InstrumentBufferConfig};
use crate::model::record::{bump, MarketDataRecord};
use crossbeam::queue::SegQueue;
use vstd::prelude::*;

verus! {

/// An unbounded first-in, first-out queue from `crossbeam`.
#[verifier::external_type_specification]
#[verifier::external_body]
#[verifier::reject_recursive_types(T)]
pub struct ExSegQueue<T>(SegQueue<T>);

/// The messages that wait in `queue`, oldest first.
pub uninterp spec fn queued(queue: SegQueue<FeedMessage>) -> Seq<FeedMessage>;

/// `SegQueue::new`: a queue that holds nothing.
#[verifier::external_body]
fn queue_new() -> (queue: SegQueue<FeedMessage>)
    ensures
        queued(queue) == Seq::<FeedMessage>::empty(),
{
    SegQueue::new()
}

/// `SegQueue::push`: the message goes to the tail of the queue.
#[verifier::external_body]
fn queue_push(queue: &mut SegQueue<FeedMessage>, message: FeedMessage)
    ensures
        queued(*final(queue)) == queued(*old(queue)).push(message),
{
    queue.push(message)
}

/// `SegQueue::pop`: the message at the head leaves the queue and is handed
/// out; an empty queue hands out nothing and stays empty.
#[verifier::external_body]
fn queue_pop(queue: &mut SegQueue<FeedMessage>) -> (message: Option<FeedMessage>)
    ensures
        queued(*old(queue)).len() == 0 ==> message.is_none() && queued(*final(queue)) == queued(
            *old(queue),
        ),
        queued(*old(queue)).len() > 0 ==> message == Some(queued(*old(queue))[0]) && queued(
            *final(queue),
        ) == queued(*old(queue)).subrange(1, queued(*old(queue)).len() as int),
{
    queue.pop()
}

/// Why the store turned a message away.
#[derive(Debug, Clone, PartialEq, Eq)]
pub enum MarketDataError {
    /// The ring for the message was full.
    BufferFull,
    /// No buffers are registered for the instrument with this symbol.
    InvalidInstrument(u32),
    /// The feed handed over something that is no message.
    FeedError(String),
    /// The message's sequence number was not above the last one stored.
    OutOfSequence,
    /// The message belongs in no ring, or failed the ring's validity test.
    InvalidRecord,
}

/// Sizing of the store.
#[derive(Debug, Clone, Copy, PartialEq, Eq, Structural)]
pub struct GlobalConfig {
    pub num_instruments: usize,
    pub cache_size_mb: usize,
    pub num_threads: usize,
    pub buffer_config: InstrumentBufferConfig,
}

/// Running counts of the store.
#[derive(Debug, Clone, Copy, PartialEq, Eq, Structural)]
pub struct MarketDataStats {
    /// Messages stored.
    pub total_messages: u64,
    /// Updates written to a ring.
    pub total_updates: u64,
    /// Messages dropped because their ring was full.
    pub buffer_full_count: u64,
    /// Messages dropped for any other reason.
    pub invalid_messages: u64,
    /// Subscriptions taken out.
    pub subscriber_count: usize,
}

impl Default for MarketDataStats {
    fn default() -> (s: MarketDataStats)
        ensures
            s == (MarketDataStats {
                total_messages: 0,
                total_updates: 0,
                buffer_full_count: 0,
                invalid_messages: 0,
                subscriber_count: 0,
            }),
    {
        MarketDataStats {
            total_messages: 0,
            total_updates: 0,
            buffer_full_count: 0,
            invalid_messages: 0,
            subscriber_count: 0,
        }
    }
}

/// The store as a mathematical value.
#[verifier::ext_equal]
pub struct StoreState {
    /// The buffers of all instruments.
    pub buffers: ManagerState<MarketDataRecord>,
    /// The running counts.
    pub stats: MarketDataStats,
    /// The messages that wait to be archived, oldest first.
    pub pending: Seq<FeedMessage>,
}

impl StoreState {
    /// What the buffers answer when the record of `message` is written to
    /// the ring that the message's type names; a message whose type names no
    /// ring is invalid.
    pub open spec fn outcome(self, message: FeedMessage) -> WriteOutcome {
        match message.message_type.ring_kind() {
            Some(kind) => self.buffers.write_outcome(message.token, message.record(), kind),
            None => WriteOutcome::InvalidRecord,
        }
    }

    /// The store after `message` was processed. A stored message is counted
    /// and queued for the archive; a dropped one is counted under the reason
    /// for which it was dropped.
    pub open spec fn after_process(self, message: FeedMessage) -> Self {
        let buffers = match message.message_type.ring_kind() {
            Some(kind) => self.buffers.after_write(message.token, message.record(), kind),
            None => self.buffers,
        };
        match self.outcome(message) {
            WriteOutcome::Written => StoreState {
                buffers,
                stats: MarketDataStats {
                    total_messages: bump(self.stats.total_messages),
                    total_updates: bump(self.stats.total_updates),
                    ..self.stats
                },
                pending: self.pending.push(message),
            },
            WriteOutcome::BufferFull => StoreState {
                buffers,
                stats: MarketDataStats {
                    buffer_full_count: bump(self.stats.buffer_full_count),
                    ..self.stats
                },
                pending: self.pending,
            },
            _ => StoreState {
                buffers,
                stats: MarketDataStats {
                    invalid_messages: bump(self.stats.invalid_messages),
                    ..self.stats
                },
                pending: self.pending,
            },
        }
    }
}

/// What processing a message answers for each outcome of the write: the
/// record for a write that succeeded, else the error that names the reason.
/// An unknown instrument is named by the low 32 bits of its token.
pub open spec fn answer_of(outcome: WriteOutcome, message: FeedMessage) -> Result<
    MarketDataRecord,
    MarketDataError,
> {
    match outcome {
        WriteOutcome::Written => Ok(message.record()),
        WriteOutcome::BufferFull => Err(MarketDataError::BufferFull),
        WriteOutcome::UnknownInstrument => Err(
            MarketDataError::InvalidInstrument((message.token % 0x1_0000_0000) as u32),
        ),
        WriteOutcome::OutOfSequence => Err(MarketDataError::OutOfSequence),
        WriteOutcome::InvalidRecord => Err(MarketDataError::InvalidRecord),
    }
}

/// The store of market data behind a feed: the buffers of all instruments,
/// the running counts, and the queue of messages that wait to be archived.
pub struct GlobalMarketData {
    buffer_manager: InstrumentBufferManager<MarketDataRecord>,
    config: GlobalConfig,
    stats: MarketDataStats,
    background_queue: SegQueue<FeedMessage>,
}

impl View for GlobalMarketData {
    type V = StoreState;

    closed spec fn view(&self) -> StoreState {
        StoreState {
            buffers: self.buffer_manager@,
            stats: self.stats,
            pending: queued(self.background_queue),
        }
    }
}

impl GlobalMarketData {
    pub closed spec fn wf(&self) -> bool {
        self.buffer_manager.wf()
    }

    /// The configuration that the store was built with.
    pub closed spec fn spec_config(&self) -> GlobalConfig {
        self.config
    }

    /// A store sized by `config`, with no instrument registered. A buffer
    /// configuration with a capacity that no ring can have is refused.
    pub fn new(config: GlobalConfig) -> (r: Result<Self, RingError>)
        ensures
            r.is_ok() <==> config.buffer_config.valid(),
            r matches Ok(store) ==> store.wf() && store.spec_config() == config && store@ == (
            StoreState {
                buffers: ManagerState::<MarketDataRecord>::fresh(
                    config.num_instruments as nat,
                    config.buffer_config,
                    false,
                ),
                stats: (MarketDataStats {
                    total_messages: 0,
                    total_updates: 0,
                    buffer_full_count: 0,
                    invalid_messages: 0,
                    subscriber_count: 0,
                }),
                pending: Seq::empty(),
            }),
    {
        match InstrumentBufferManager::new(config.num_instruments, config.buffer_config) {
            Ok(buffer_manager) => Ok(
                GlobalMarketData {
                    buffer_manager,
                    config,
                    stats: MarketDataStats::default(),
                    background_queue: queue_new(),
                },
            ),
            Err(e) => Err(e),
        }
    }

    /// Registers `token` and answers its slot.
    pub fn register_instrument(&mut self, token: u64) -> (slot: Option<usize>)
        requires
            old(self).wf(),
        ensures
            final(self).wf(),
            final(self).spec_config() == old(self).spec_config(),
            slot == old(self)@.buffers.register_result(token),
            final(self)@ == (StoreState {
                buffers: old(self)@.buffers.after_register(token),
                ..old(self)@
            }),
    {
        self.buffer_manager.register_instrument(token)
    }

    /// Stores one message from the feed: writes its record to the ring that
    /// the message's type names, counts what became of it and, where it was
    /// stored, queues it for the archive. The answer is the record that was
    /// stored, for those who wait for it, or the reason why none was.
    pub fn process_feed_message(&mut self, msg: FeedMessage) -> (r: Result<
        MarketDataRecord,
        MarketDataError,
    >)
        requires
            old(self).wf(),
        ensures
            final(self).wf(),
            final(self).spec_config() == old(self).spec_config(),
            r == answer_of(old(self)@.outcome(msg), msg),
            final(self)@ == old(self)@.after_process(msg),
    {
        let record = msg.to_record();
        let outcome = match msg.message_type.buffer_type() {
            Some(kind) => self.buffer_manager.try_write(msg.token, &record, kind),
            None => WriteOutcome::InvalidRecord,
        };
        match outcome {
            WriteOutcome::Written => {
                self.stats.total_messages = self.stats.total_messages.wrapping_add(1);
                self.stats.total_updates = self.stats.total_updates.wrapping_add(1);
                queue_push(&mut self.background_queue, msg);
                Ok(record)
            },
            WriteOutcome::BufferFull => {
                self.stats.buffer_full_count = self.stats.buffer_full_count.wrapping_add(1);
                Err(MarketDataError::BufferFull)
            },
            WriteOutcome::UnknownInstrument => {
                self.stats.invalid_messages = self.stats.invalid_messages.wrapping_add(1);
                Err(MarketDataError::InvalidInstrument(record.symbol_id()))
            },
            WriteOutcome::OutOfSequence => {
                self.stats.invalid_messages = self.stats.invalid_messages.wrapping_add(1);
                Err(MarketDataError::OutOfSequence)
            },
            WriteOutcome::InvalidRecord => {
                self.stats.invalid_messages = self.stats.invalid_messages.wrapping_add(1);
                Err(MarketDataError::InvalidRecord)
            },
        }
    }

    /// Takes the oldest quote of `token` out of its ring.
    pub fn get_latest_tick(&mut self, token: u64) -> (record: Option<MarketDataRecord>)
        requires
            old(self).wf(),
        ensures
            final(self).wf(),
            final(self).spec_config() == old(self).spec_config(),
            record == old(self)@.buffers.read_result(token, BufferType::L1Price),
            final(self)@ == (StoreState {
                buffers: old(self)@.buffers.after_read(token, BufferType::L1Price),
                ..old(self)@
            }),
    {
        self.buffer_manager.read(token, BufferType::L1Price)
    }

    /// Counts one subscription.
    pub fn subscribe(&mut self)
        requires
            old(self).wf(),
        ensures
            final(self).wf(),
            final(self).spec_config() == old(self).spec_config(),
            final(self)@ == (StoreState {
                stats: MarketDataStats {
                    subscriber_count: if old(self)@.stats.subscriber_count == usize::MAX {
                        0usize
                    } else {
                        (old(self)@.stats.subscriber_count + 1) as usize
                    },
                    ..old(self)@.stats
                },
                ..old(self)@
            }),
    {
        self.stats.subscriber_count = self.stats.subscriber_count.wrapping_add(1);
    }

    /// Takes the message that has waited longest for the archive, if any
    /// waits.
    pub fn next_for_archive(&mut self) -> (message: Option<FeedMessage>)
        requires
            old(self).wf(),
        ensures
            final(self).wf(),
            final(self).spec_config() == old(self).spec_config(),
            old(self)@.pending.len() == 0 ==> message.is_none() && final(self)@ == old(self)@,
            old(self)@.pending.len() > 0 ==> message == Some(old(self)@.pending[0]) && final(self)@
                == (StoreState {
                pending: old(self)@.pending.subrange(1, old(self)@.pending.len() as int),
                ..old(self)@
            }),
    {
        queue_pop(&mut self.background_queue)
    }

    /// The running counts.
    pub fn get_stats(&self) -> (stats: MarketDataStats)
        ensures
            stats == self@.stats,
    {
        self.stats
    }

    /// The configuration that the store was built with.
    pub fn config(&self) -> (config: GlobalConfig)
        ensures
            config == self.spec_config(),
    {
        self.config
    }
}

} // verus!
