//! What holds of every ring, proved over its model.

use crate::memory::ring_buffer::{occupancy, RingState, WriteOutcome, MAX_CAPACITY};
use crate::model::record::UltraLowLatencyRecord;
use vstd::prelude::*;

verus! {

/// One operation on a ring.
pub enum RingOp<T> {
    /// The producer offers a record.
    Write(T),
    /// The consumer asks for one.
    Read,
}

/// A ring together with what has gone into it and what has come out of it.
#[verifier::ext_equal]
pub struct RingTrace<T> {
    /// The ring as it stands.
    pub state: RingState<T>,
    /// Every record accepted so far, in the order of the writes.
    pub produced: Seq<T>,
    /// Every record handed out so far, in the order of the reads.
    pub consumed: Seq<T>,
}

impl<T: UltraLowLatencyRecord> RingTrace<T> {
    /// A ring on which nothing has happened.
    pub open spec fn start(state: RingState<T>) -> Self {
        RingTrace { state, produced: Seq::empty(), consumed: Seq::empty() }
    }

    /// The trace one operation on.
    pub open spec fn step(self, op: RingOp<T>) -> Self {
        match op {
            RingOp::Write(record) => RingTrace {
                state: self.state.after_write(record),
                produced: if self.state.write_outcome(record) == WriteOutcome::Written {
                    self.produced.push(record)
                } else {
                    self.produced
                },
                consumed: self.consumed,
            },
            RingOp::Read => RingTrace {
                state: self.state.after_read(),
                produced: self.produced,
                consumed: match self.state.read_result() {
                    Some(record) => self.consumed.push(record),
                    None => self.consumed,
                },
            },
        }
    }

    /// The trace after the operations of `ops`, taken in order.
    pub open spec fn run(self, ops: Seq<RingOp<T>>) -> Self
        decreases ops.len(),
    {
        if ops.len() == 0 {
            self
        } else {
            self.run(ops.drop_last()).step(ops.last())
        }
    }
}

/// A write and a read each keep the ring's invariant: at every point of every
/// history the ring holds between zero and `capacity` records.
pub proof fn lemma_capacity_bound<T: UltraLowLatencyRecord>(ring: RingState<T>, record: T)
    requires
        ring.inv(),
    ensures
        ring.after_write(record).inv(),
        ring.after_read().inv(),
        0 <= ring.records.len() <= ring.capacity,
{
    assert(ring.after_write(record).inv());
    assert(ring.after_read().inv());
}

/// A full ring refuses every write and is left as it was.
pub proof fn lemma_full_refuses_write<T: UltraLowLatencyRecord>(ring: RingState<T>, record: T)
    requires
        ring.is_full(),
    ensures
        ring.write_outcome(record) == WriteOutcome::BufferFull,
        ring.after_write(record) == ring,
{
}

/// An empty ring answers every read with nothing and is left as it was.
pub proof fn lemma_empty_reads_nothing<T: UltraLowLatencyRecord>(ring: RingState<T>)
    requires
        ring.is_empty(),
    ensures
        ring.read_result().is_none(),
        ring.after_read() == ring,
{
}

/// Records that fit, and that pass the validity test where the ring applies
/// one, all go to the back of the queue in the order they were offered.
pub proof fn lemma_writes_append<T: UltraLowLatencyRecord>(ring: RingState<T>, batch: Seq<T>)
    requires
        ring.inv(),
        ring.records.len() + batch.len() <= ring.capacity,
        ring.validating ==> forall|i: int| 0 <= i < batch.len() ==> (#[trigger] batch[i]).is_valid(),
    ensures
        ring.after_writes(batch).inv(),
        ring.after_writes(batch).records == ring.records + batch,
        ring.after_writes(batch).capacity == ring.capacity,
        ring.after_writes(batch).validating == ring.validating,
        ring.after_writes(batch).invalid_count == ring.invalid_count,
    decreases batch.len(),
{
    if batch.len() > 0 {
        let next = ring.after_write(batch[0]);
        let rest = batch.subrange(1, batch.len() as int);
        assert(ring.write_outcome(batch[0]) == WriteOutcome::Written);
        assert(next.inv());
        assert forall|i: int| 0 <= i < rest.len() implies (#[trigger] rest[i]).is_valid()
            || !ring.validating by {
            assert(rest[i] == batch[i + 1]);
        }
        lemma_writes_append(next, rest);
        assert(next.records + rest =~= ring.records + batch);
    } else {
        assert(ring.records + batch =~= ring.records);
    }
}

/// Reads hand out the oldest records first and leave the rest in order.
pub proof fn lemma_reads_take_front<T: UltraLowLatencyRecord>(ring: RingState<T>, count: nat)
    requires
        ring.inv(),
        count <= ring.records.len(),
    ensures
        ring.after_reads(count).inv(),
        ring.reads(count) == ring.records.subrange(0, count as int),
        ring.after_reads(count).records == ring.records.subrange(
            count as int,
            ring.records.len() as int,
        ),
    decreases count,
{
    if count > 0 {
        let next = ring.after_read();
        assert(next.inv());
        lemma_reads_take_front(next, (count - 1) as nat);
        assert(ring.reads(count) =~= ring.records.subrange(0, count as int));
        assert(ring.after_reads(count).records =~= ring.records.subrange(
            count as int,
            ring.records.len() as int,
        ));
    } else {
        assert(ring.reads(count) =~= ring.records.subrange(0, 0));
        assert(ring.records =~= ring.records.subrange(0, ring.records.len() as int));
    }
}

/// Round trip: records written into a fresh ring with room for all of them
/// come out again unchanged and in the order they went in, and the ring is
/// then empty.
pub proof fn lemma_round_trip<T: UltraLowLatencyRecord>(
    capacity: nat,
    validating: bool,
    batch: Seq<T>,
)
    requires
        0 < capacity <= MAX_CAPACITY,
        batch.len() <= capacity,
        validating ==> forall|i: int| 0 <= i < batch.len() ==> (#[trigger] batch[i]).is_valid(),
    ensures
        RingState::<T>::fresh(capacity, validating).after_writes(batch).records == batch,
        RingState::<T>::fresh(capacity, validating).after_writes(batch).reads(batch.len())
            == batch,
        RingState::<T>::fresh(capacity, validating).after_writes(batch).after_reads(
            batch.len(),
        ).is_empty(),
{
    let fresh = RingState::<T>::fresh(capacity, validating);
    assert(occupancy(0, 0) == 0);
    assert(fresh.inv());
    lemma_writes_append(fresh, batch);
    let filled = fresh.after_writes(batch);
    assert(fresh.records + batch =~= batch);
    lemma_reads_take_front(filled, batch.len());
    assert(batch.subrange(0, batch.len() as int) =~= batch);
}

/// First in, first out: after any run of writes and reads on a fresh ring,
/// what was read, followed by what the ring still holds, is what was
/// accepted. So the records read are a prefix of the records written.
pub proof fn lemma_consumed_is_prefix_of_produced<T: UltraLowLatencyRecord>(
    capacity: nat,
    validating: bool,
    ops: Seq<RingOp<T>>,
)
    requires
        0 < capacity <= MAX_CAPACITY,
    ensures
        ({
            let trace = RingTrace::start(RingState::<T>::fresh(capacity, validating)).run(ops);
            &&& trace.state.inv()
            &&& trace.consumed + trace.state.records == trace.produced
            &&& trace.consumed.is_prefix_of(trace.produced)
        }),
    decreases ops.len(),
{
    let begin = RingTrace::start(RingState::<T>::fresh(capacity, validating));
    let trace = begin.run(ops);
    if ops.len() == 0 {
        assert(occupancy(0, 0) == 0);
        assert(trace.consumed + trace.state.records =~= trace.produced);
    } else {
        lemma_consumed_is_prefix_of_produced::<T>(capacity, validating, ops.drop_last());
        let before = begin.run(ops.drop_last());
        assert(trace == before.step(ops.last()));
        match ops.last() {
            RingOp::Write(record) => {
                assert(before.state.after_write(record).inv());
                assert(trace.consumed + trace.state.records =~= trace.produced);
            },
            RingOp::Read => {
                assert(before.state.after_read().inv());
                assert(trace.consumed + trace.state.records =~= trace.produced);
            },
        }
    }
    assert(trace.consumed =~= trace.produced.subrange(0, trace.consumed.len() as int));
}

} // verus!
