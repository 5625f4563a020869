//! What the sequence check of a buffer set guarantees, proved over its model.

use crate::memory::instrument_buffer::{lemma_write_keeps_inv, BufferSetState};
use crate::memory::ring_laws::lemma_reads_take_front;
use crate::memory::ring_buffer::WriteOutcome;
use crate::model::config::BufferType;
use crate::model::record::{bump, RecordStats, UltraLowLatencyRecord};
use vstd::prelude::*;

verus! {

/// One operation on the buffers of an instrument.
pub enum BufferSetOp<T> {
    /// A record is offered to the ring of the given kind.
    Write(T, BufferType),
    /// A record is asked of the ring of the given kind.
    Read(BufferType),
}

impl<T: UltraLowLatencyRecord> BufferSetState<T> {
    /// The buffers one operation on.
    pub open spec fn step(self, op: BufferSetOp<T>) -> Self {
        match op {
            BufferSetOp::Write(record, kind) => self.after_write(record, kind),
            BufferSetOp::Read(kind) => self.after_read(kind),
        }
    }

    /// The buffers after the operations of `ops`, taken in order.
    pub open spec fn run(self, ops: Seq<BufferSetOp<T>>) -> Self
        decreases ops.len(),
    {
        if ops.len() == 0 {
            self
        } else {
            self.run(ops.drop_last()).step(ops.last())
        }
    }
}

/// An accepted record raises the last sequence number to its own; nothing
/// else changes it.
pub proof fn lemma_last_sequence_follows_writes<T: UltraLowLatencyRecord>(
    set: BufferSetState<T>,
    record: T,
    kind: BufferType,
)
    ensures
        set.write_outcome(record, kind) == WriteOutcome::Written ==> record.sequence_num_of()
            > set.last_sequence && set.after_write(record, kind).last_sequence
            == record.sequence_num_of(),
        set.write_outcome(record, kind) != WriteOutcome::Written ==> set.after_write(
            record,
            kind,
        ).last_sequence == set.last_sequence,
        set.after_read(kind).last_sequence == set.last_sequence,
{
}

/// Whatever is done to a buffer set, its last sequence number never falls.
pub proof fn lemma_last_sequence_never_falls<T: UltraLowLatencyRecord>(
    set: BufferSetState<T>,
    ops: Seq<BufferSetOp<T>>,
)
    ensures
        set.run(ops).last_sequence >= set.last_sequence,
    decreases ops.len(),
{
    if ops.len() > 0 {
        lemma_last_sequence_never_falls(set, ops.drop_last());
        let before = set.run(ops.drop_last());
        match ops.last() {
            BufferSetOp::Write(record, kind) => {
                lemma_last_sequence_follows_writes(before, record, kind);
            },
            BufferSetOp::Read(kind) => {},
        }
    }
}

/// Sequence numbers of accepted records rise: if one write succeeds and,
/// after anything else has happened, another succeeds, the second record's
/// sequence number is above the first's, whichever rings they went to.
pub proof fn lemma_accepted_sequences_rise<T: UltraLowLatencyRecord>(
    set: BufferSetState<T>,
    first: T,
    first_kind: BufferType,
    between: Seq<BufferSetOp<T>>,
    second: T,
    second_kind: BufferType,
)
    requires
        set.write_outcome(first, first_kind) == WriteOutcome::Written,
        set.after_write(first, first_kind).run(between).write_outcome(second, second_kind)
            == WriteOutcome::Written,
    ensures
        second.sequence_num_of() > first.sequence_num_of(),
{
    lemma_last_sequence_never_falls(set.after_write(first, first_kind), between);
}

/// A record whose sequence number is not above the last one accepted is
/// refused, and nothing changes but the count of such refusals.
pub proof fn lemma_stale_write_is_refused<T: UltraLowLatencyRecord>(
    set: BufferSetState<T>,
    record: T,
    kind: BufferType,
)
    requires
        record.sequence_num_of() <= set.last_sequence,
    ensures
        set.write_outcome(record, kind) == WriteOutcome::OutOfSequence,
        set.after_write(record, kind) == (BufferSetState {
            stats: RecordStats {
                sequence_errors: bump(set.stats.sequence_errors),
                ..set.stats
            },
            ..set
        }),
{
}

/// A replay is refused: once a record has been accepted, a later write with
/// the same sequence number, or a lower one, fails whatever has happened in
/// between, and leaves every ring and the last sequence number as they were.
pub proof fn lemma_replay_is_refused<T: UltraLowLatencyRecord>(
    set: BufferSetState<T>,
    first: T,
    first_kind: BufferType,
    between: Seq<BufferSetOp<T>>,
    replay: T,
    replay_kind: BufferType,
)
    requires
        set.write_outcome(first, first_kind) == WriteOutcome::Written,
        replay.sequence_num_of() <= first.sequence_num_of(),
    ensures
        ({
            let later = set.after_write(first, first_kind).run(between);
            &&& later.write_outcome(replay, replay_kind) == WriteOutcome::OutOfSequence
            &&& later.after_write(replay, replay_kind).l1 == later.l1
            &&& later.after_write(replay, replay_kind).l2 == later.l2
            &&& later.after_write(replay, replay_kind).reference == later.reference
            &&& later.after_write(replay, replay_kind).last_sequence == later.last_sequence
        }),
{
    lemma_last_sequence_never_falls(set.after_write(first, first_kind), between);
}

/// A write that fails leaves every queue and the last sequence number as
/// they were.
pub proof fn lemma_failed_write_keeps_queues<T: UltraLowLatencyRecord>(
    set: BufferSetState<T>,
    record: T,
    kind: BufferType,
    other: BufferType,
)
    requires
        set.write_outcome(record, kind) != WriteOutcome::Written,
    ensures
        set.after_write(record, kind).ring(other).records == set.ring(other).records,
        set.after_write(record, kind).last_sequence == set.last_sequence,
{
}

/// A write reaches only the ring it names: the queues of the other two
/// kinds stay as they were.
pub proof fn lemma_write_reaches_one_ring<T: UltraLowLatencyRecord>(
    set: BufferSetState<T>,
    record: T,
    kind: BufferType,
    other: BufferType,
)
    requires
        other != kind,
    ensures
        set.after_write(record, kind).ring(other) == set.ring(other),
        set.after_read(kind).ring(other) == set.ring(other),
{
}

/// Whether the sequence numbers of `batch` rise strictly and start above
/// `last`.
pub open spec fn rising_above<T: UltraLowLatencyRecord>(batch: Seq<T>, last: u64) -> bool {
    &&& forall|i: int, j: int|
        0 <= i < j < batch.len() ==> (#[trigger] batch[i]).sequence_num_of() < (
        #[trigger] batch[j]).sequence_num_of()
    &&& forall|i: int| 0 <= i < batch.len() ==> (#[trigger] batch[i]).sequence_num_of() > last
}

impl<T: UltraLowLatencyRecord> BufferSetState<T> {
    /// The buffers after each record of `batch` was offered in turn to the
    /// ring of `kind`.
    pub open spec fn after_writes(self, batch: Seq<T>, kind: BufferType) -> Self
        decreases batch.len(),
    {
        if batch.len() == 0 {
            self
        } else {
            self.after_write(batch[0], kind).after_writes(
                batch.subrange(1, batch.len() as int),
                kind,
            )
        }
    }
}

/// Round trip through the sequence check: records with strictly rising
/// sequence numbers, the first above the last one accepted, that fit into
/// the ring of their kind and pass its validity test if it has one, are all
/// accepted; the ring then holds them behind what it held, in the order they
/// were offered, and reading hands them out again unchanged.
pub proof fn lemma_rising_batch_is_stored<T: UltraLowLatencyRecord>(
    set: BufferSetState<T>,
    batch: Seq<T>,
    kind: BufferType,
)
    requires
        set.inv(),
        rising_above(batch, set.last_sequence),
        set.ring(kind).records.len() + batch.len() <= set.ring(kind).capacity,
        set.ring(kind).validating ==> forall|i: int|
            0 <= i < batch.len() ==> (#[trigger] batch[i]).is_valid(),
    ensures
        set.after_writes(batch, kind).inv(),
        set.after_writes(batch, kind).ring(kind).records == set.ring(kind).records + batch,
        set.ring(kind).is_empty() ==> set.after_writes(batch, kind).ring(kind).reads(batch.len())
            == batch,
        batch.len() > 0 ==> set.after_writes(batch, kind).last_sequence
            == batch.last().sequence_num_of(),
    decreases batch.len(),
{
    if batch.len() == 0 {
        assert(set.ring(kind).records + batch =~= set.ring(kind).records);
        assert(set.after_writes(batch, kind).ring(kind).reads(0) =~= batch);
    } else {
        let next = set.after_write(batch[0], kind);
        let rest = batch.subrange(1, batch.len() as int);
        assert(set.write_outcome(batch[0], kind) == WriteOutcome::Written);
        lemma_write_keeps_inv(set, batch[0], kind);
        assert(rising_above(rest, next.last_sequence)) by {
            assert forall|i: int, j: int| 0 <= i < j < rest.len() implies (
            #[trigger] rest[i]).sequence_num_of() < (#[trigger] rest[j]).sequence_num_of() by {
                assert(rest[i] == batch[i + 1]);
                assert(rest[j] == batch[j + 1]);
            }
            assert forall|i: int| 0 <= i < rest.len() implies (
            #[trigger] rest[i]).sequence_num_of() > next.last_sequence by {
                assert(rest[i] == batch[i + 1]);
            }
        }
        assert(next.ring(kind).validating == set.ring(kind).validating);
        assert forall|i: int| 0 <= i < rest.len() implies (#[trigger] rest[i]).is_valid()
            || !next.ring(kind).validating by {
            assert(rest[i] == batch[i + 1]);
        }
        lemma_rising_batch_is_stored(next, rest, kind);
        let done = set.after_writes(batch, kind);
        assert(done == next.after_writes(rest, kind));
        assert(next.ring(kind).records + rest =~= set.ring(kind).records + batch);
        if rest.len() > 0 {
            assert(rest.last() == batch.last());
        }
        if set.ring(kind).is_empty() {
            assert(set.ring(kind).records + batch =~= batch);
            assert(done.ring(kind).inv());
            lemma_reads_take_front(done.ring(kind), batch.len());
            assert(batch.subrange(0, batch.len() as int) =~= batch);
        }
    }
}

} // verus!
