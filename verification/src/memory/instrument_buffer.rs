use crate::memory::ring_buffer::{RingError, RingState, WriteOutcome, ZeroAllocRingBuffer};
use crate::model::config::{BufferType, InstrumentBufferConfig};
use crate::model::record::{bump, RecordStats, UltraLowLatencyRecord};
use vstd::prelude::*;

verus! {

/// Whether the records of `ring` carry strictly rising sequence numbers, none
/// above `last`.
pub open spec fn in_sequence<T: UltraLowLatencyRecord>(ring: RingState<T>, last: u64) -> bool {
    &&& forall|i: int, j: int|
        0 <= i < j < ring.records.len() ==> (#[trigger] ring.records[i]).sequence_num_of() < (
        #[trigger] ring.records[j]).sequence_num_of()
    &&& forall|i: int|
        0 <= i < ring.records.len() ==> (#[trigger] ring.records[i]).sequence_num_of() <= last
}

/// The buffers of one instrument as a mathematical value: three rings, the
/// highest sequence number accepted so far, and the running counts.
#[verifier::ext_equal]
pub struct BufferSetState<T> {
    /// The instrument.
    pub token: u64,
    /// The ring of quote updates.
    pub l1: RingState<T>,
    /// The ring of trade updates.
    pub l2: RingState<T>,
    /// The ring of reference data.
    pub reference: RingState<T>,
    /// The sequence number of the last record accepted; zero before the first.
    pub last_sequence: u64,
    /// What became of the records offered so far.
    pub stats: RecordStats,
}

impl<T: UltraLowLatencyRecord> BufferSetState<T> {
    /// The buffers of `token` before anything was written.
    pub open spec fn fresh(token: u64, config: InstrumentBufferConfig, validating: bool) -> Self {
        BufferSetState {
            token,
            l1: RingState::fresh(config.l1_buffer_size as nat, validating),
            l2: RingState::fresh(config.l2_buffer_size as nat, validating),
            reference: RingState::fresh(config.ref_buffer_size as nat, validating),
            last_sequence: 0,
            stats: RecordStats { total_updates: 0, invalid_records: 0, sequence_errors: 0 },
        }
    }

    /// The ring for updates of `kind`.
    pub open spec fn ring(self, kind: BufferType) -> RingState<T> {
        match kind {
            BufferType::L1Price => self.l1,
            BufferType::L2Trade => self.l2,
            BufferType::Reference => self.reference,
        }
    }

    /// The same buffers with `ring` in the place for `kind`.
    pub open spec fn with_ring(self, kind: BufferType, ring: RingState<T>) -> Self {
        match kind {
            BufferType::L1Price => BufferSetState { l1: ring, ..self },
            BufferType::L2Trade => BufferSetState { l2: ring, ..self },
            BufferType::Reference => BufferSetState { reference: ring, ..self },
        }
    }

    /// What holds of every buffer set: each ring keeps its own invariant, and
    /// every record that is queued was accepted in sequence, so within a ring the
    /// sequence numbers rise and none is above the last one accepted.
    pub open spec fn inv(self) -> bool {
        &&& self.l1.inv()
        &&& self.l2.inv()
        &&& self.reference.inv()
        &&& in_sequence(self.l1, self.last_sequence)
        &&& in_sequence(self.l2, self.last_sequence)
        &&& in_sequence(self.reference, self.last_sequence)
    }

    /// What a write of `record` to the ring of `kind` answers. The sequence check comes
    /// first: a sequence number that is not above the last one accepted is
    /// turned away whatever the ring would have said.
    pub open spec fn write_outcome(self, record: T, kind: BufferType) -> WriteOutcome {
        if record.sequence_num_of() <= self.last_sequence {
            WriteOutcome::OutOfSequence
        } else {
            self.ring(kind).write_outcome(record)
        }
    }

    /// The buffers after a write of `record` to the ring of `kind` was
    /// attempted. Only an accepted record raises the last sequence number.
    pub open spec fn after_write(self, record: T, kind: BufferType) -> Self {
        match self.write_outcome(record, kind) {
            WriteOutcome::Written => BufferSetState {
                last_sequence: record.sequence_num_of(),
                stats: RecordStats {
                    total_updates: bump(self.stats.total_updates),
                    ..self.stats
                },
                ..self.with_ring(kind, self.ring(kind).after_write(record))
            },
            WriteOutcome::OutOfSequence => BufferSetState {
                stats: RecordStats {
                    sequence_errors: bump(self.stats.sequence_errors),
                    ..self.stats
                },
                ..self
            },
            WriteOutcome::InvalidRecord => BufferSetState {
                stats: RecordStats {
                    invalid_records: bump(self.stats.invalid_records),
                    ..self.stats
                },
                ..self.with_ring(kind, self.ring(kind).after_write(record))
            },
            _ => self,
        }
    }

    /// What a read from the ring of `kind` answers.
    pub open spec fn read_result(self, kind: BufferType) -> Option<T> {
        self.ring(kind).read_result()
    }

    /// The buffers after a read from the ring of `kind`. The last sequence number and
    /// the counts stay as they are.
    pub open spec fn after_read(self, kind: BufferType) -> Self {
        self.with_ring(kind, self.ring(kind).after_read())
    }
}

/// A write keeps the invariant of a buffer set.
pub proof fn lemma_write_keeps_inv<T: UltraLowLatencyRecord>(
    set: BufferSetState<T>,
    record: T,
    kind: BufferType,
)
    requires
        set.inv(),
    ensures
        set.after_write(record, kind).inv(),
        set.after_write(record, kind).token == set.token,
{
    let wrote = set.after_write(record, kind);
    let ring = set.ring(kind);
    assert(ring.inv() && in_sequence(ring, set.last_sequence));
    assert(ring.after_write(record).inv());
    if set.write_outcome(record, kind) == WriteOutcome::Written {
        let longer = ring.after_write(record);
        assert(in_sequence(longer, record.sequence_num_of())) by {
            assert forall|i: int, j: int| 0 <= i < j < longer.records.len() implies (
            #[trigger] longer.records[i]).sequence_num_of() < (
            #[trigger] longer.records[j]).sequence_num_of() by {
                assert(longer.records[i] == ring.records[i]);
                if j < ring.records.len() {
                    assert(longer.records[j] == ring.records[j]);
                }
            }
            assert forall|i: int| 0 <= i < longer.records.len() implies (
            #[trigger] longer.records[i]).sequence_num_of() <= record.sequence_num_of() by {
                if i < ring.records.len() {
                    assert(longer.records[i] == ring.records[i]);
                }
            }
        }
        assert(in_sequence(wrote.l1, wrote.last_sequence));
        assert(in_sequence(wrote.l2, wrote.last_sequence));
        assert(in_sequence(wrote.reference, wrote.last_sequence));
    }
}

/// A read keeps the invariant of a buffer set.
pub proof fn lemma_read_keeps_inv<T: UltraLowLatencyRecord>(
    set: BufferSetState<T>,
    kind: BufferType,
)
    requires
        set.inv(),
    ensures
        set.after_read(kind).inv(),
        set.after_read(kind).token == set.token,
{
    let ring = set.ring(kind);
    assert(ring.inv() && in_sequence(ring, set.last_sequence));
    assert(ring.after_read().inv());
    let shorter = ring.after_read();
    assert(in_sequence(shorter, set.last_sequence)) by {
        if !ring.is_empty() {
            assert forall|i: int, j: int| 0 <= i < j < shorter.records.len() implies (
            #[trigger] shorter.records[i]).sequence_num_of() < (
            #[trigger] shorter.records[j]).sequence_num_of() by {
                assert(shorter.records[i] == ring.records[i + 1]);
                assert(shorter.records[j] == ring.records[j + 1]);
            }
            assert forall|i: int| 0 <= i < shorter.records.len() implies (
            #[trigger] shorter.records[i]).sequence_num_of() <= set.last_sequence by {
                assert(shorter.records[i] == ring.records[i + 1]);
            }
        }
    }
}

/// The three rings of one instrument behind one sequence check: a record is accepted
/// only if its sequence number is above that of every record accepted before
/// it, whichever ring that one went to.
pub struct InstrumentBuffer<T: UltraLowLatencyRecord> {
    token: u64,
    l1_buffer: ZeroAllocRingBuffer<T>,
    l2_buffer: ZeroAllocRingBuffer<T>,
    ref_buffer: ZeroAllocRingBuffer<T>,
    last_sequence: u64,
    stats: RecordStats,
}

impl<T: UltraLowLatencyRecord> View for InstrumentBuffer<T> {
    type V = BufferSetState<T>;

    closed spec fn view(&self) -> BufferSetState<T> {
        BufferSetState {
            token: self.token,
            l1: self.l1_buffer@,
            l2: self.l2_buffer@,
            reference: self.ref_buffer@,
            last_sequence: self.last_sequence,
            stats: self.stats,
        }
    }
}

impl<T: UltraLowLatencyRecord> InstrumentBuffer<T> {
    /// The rings are sound and everything queued was accepted in sequence.
    pub closed spec fn wf(&self) -> bool {
        &&& self.l1_buffer.wf()
        &&& self.l2_buffer.wf()
        &&& self.ref_buffer.wf()
        &&& self@.inv()
    }

    /// A well-formed buffer set satisfies the invariant of its model.
    pub proof fn lemma_wf_inv(&self)
        requires
            self.wf(),
        ensures
            self@.inv(),
    {
    }

    /// Empty buffers for `token`, sized by `config`.
    pub(crate) fn build(token: u64, config: &InstrumentBufferConfig, validating: bool) -> (set:
        Self)
        requires
            config.valid(),
        ensures
            set.wf(),
            set@ == BufferSetState::<T>::fresh(token, *config, validating),
    {
        let set = InstrumentBuffer {
            token,
            l1_buffer: ZeroAllocRingBuffer::build(config.l1_buffer_size, validating),
            l2_buffer: ZeroAllocRingBuffer::build(config.l2_buffer_size, validating),
            ref_buffer: ZeroAllocRingBuffer::build(config.ref_buffer_size, validating),
            last_sequence: 0,
            stats: RecordStats::new(),
        };
        proof {
            set.l1_buffer.lemma_wf_inv();
            set.l2_buffer.lemma_wf_inv();
            set.ref_buffer.lemma_wf_inv();
        }
        set
    }

    /// Empty buffers for `token`, sized by `config`, that store whatever
    /// comes in sequence. A configuration with a capacity that no ring can
    /// have is refused.
    pub fn new(token: u64, config: &InstrumentBufferConfig) -> (r: Result<Self, RingError>)
        ensures
            r.is_ok() <==> config.valid(),
            r matches Ok(set) ==> set.wf() && set@ == BufferSetState::<T>::fresh(
                token,
                *config,
                false,
            ),
    {
        if !config.is_valid() {
            return Err(RingError::InvalidCapacity);
        }
        Ok(Self::build(token, config, false))
    }

    /// Empty buffers for `token`, sized by `config`, whose rings also turn
    /// away records that fail their validity test.
    pub fn with_validation(token: u64, config: &InstrumentBufferConfig) -> (r: Result<
        Self,
        RingError,
    >)
        ensures
            r.is_ok() <==> config.valid(),
            r matches Ok(set) ==> set.wf() && set@ == BufferSetState::<T>::fresh(
                token,
                *config,
                true,
            ),
    {
        if !config.is_valid() {
            return Err(RingError::InvalidCapacity);
        }
        Ok(Self::build(token, config, true))
    }

    /// Offers `record` to the ring of `buffer_type` and says what became of
    /// it.
    pub fn try_write(&mut self, record: &T, buffer_type: BufferType) -> (outcome: WriteOutcome)
        requires
            old(self).wf(),
        ensures
            final(self).wf(),
            outcome == old(self)@.write_outcome(*record, buffer_type),
            final(self)@ == old(self)@.after_write(*record, buffer_type),
    {
        proof {
            lemma_write_keeps_inv(self@, *record, buffer_type);
        }
        let sequence = record.get_sequence_num();
        if sequence <= self.last_sequence {
            self.stats.increment_sequence_errors();
            return WriteOutcome::OutOfSequence;
        }
        let outcome = match buffer_type {
            BufferType::L1Price => self.l1_buffer.try_write(record),
            BufferType::L2Trade => self.l2_buffer.try_write(record),
            BufferType::Reference => self.ref_buffer.try_write(record),
        };
        match outcome {
            WriteOutcome::Written => {
                self.last_sequence = sequence;
                self.stats.increment_updates();
            },
            WriteOutcome::InvalidRecord => {
                self.stats.increment_invalid();
            },
            _ => {},
        }
        outcome
    }

    /// Writes `record` to the ring of `buffer_type`. Answers `true` exactly
    /// when the record's sequence number is above the last one accepted, the
    /// ring has room, and the record passes the ring's validity test if it
    /// applies one.
    pub fn write(&mut self, record: &T, buffer_type: BufferType) -> (written: bool)
        requires
            old(self).wf(),
        ensures
            final(self).wf(),
            written == (old(self)@.write_outcome(*record, buffer_type) == WriteOutcome::Written),
            final(self)@ == old(self)@.after_write(*record, buffer_type),
    {
        match self.try_write(record, buffer_type) {
            WriteOutcome::Written => true,
            _ => false,
        }
    }

    /// Takes the oldest record out of the ring of `buffer_type`.
    pub fn read(&mut self, buffer_type: BufferType) -> (record: Option<T>)
        requires
            old(self).wf(),
        ensures
            final(self).wf(),
            record == old(self)@.read_result(buffer_type),
            final(self)@ == old(self)@.after_read(buffer_type),
    {
        proof {
            lemma_read_keeps_inv(self@, buffer_type);
        }
        match buffer_type {
            BufferType::L1Price => self.l1_buffer.read(),
            BufferType::L2Trade => self.l2_buffer.read(),
            BufferType::Reference => self.ref_buffer.read(),
        }
    }

    /// The instrument that these buffers belong to.
    pub fn token(&self) -> (token: u64)
        ensures
            token == self@.token,
    {
        self.token
    }

    /// The sequence number of the last record accepted.
    pub fn last_sequence(&self) -> (sequence: u64)
        ensures
            sequence == self@.last_sequence,
    {
        self.last_sequence
    }

    /// The running counts.
    pub fn stats(&self) -> (stats: RecordStats)
        ensures
            stats == self@.stats,
    {
        self.stats
    }

    /// The ring of `buffer_type`, for looking at.
    pub fn get_buffer(&self, buffer_type: BufferType) -> (ring: &ZeroAllocRingBuffer<T>)
        requires
            self.wf(),
        ensures
            ring.wf(),
            ring@ == self@.ring(buffer_type),
    {
        match buffer_type {
            BufferType::L1Price => &self.l1_buffer,
            BufferType::L2Trade => &self.l2_buffer,
            BufferType::Reference => &self.ref_buffer,
        }
    }
}

} // verus!
