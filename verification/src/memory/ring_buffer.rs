use crate::model::record::{bump, Record, UltraLowLatencyRecord};
use vstd::prelude::*;

verus! {

/// The largest number of slots a ring may be built with.
pub const MAX_CAPACITY: usize = 0x4000_0000;

/// Why a ring could not be built.
#[derive(Debug, Clone, Copy, PartialEq, Eq, Structural)]
pub enum RingError {
    /// The capacity is zero or above `MAX_CAPACITY`.
    InvalidCapacity,
}

/// What became of a record that was offered for writing.
#[derive(Debug, Clone, Copy, PartialEq, Eq, Structural)]
pub enum WriteOutcome {
    /// The record is in the ring.
    Written,
    /// The ring held as many records as it has slots.
    BufferFull,
    /// The record's sequence number was not above the last one accepted.
    OutOfSequence,
    /// No buffer is registered for the record's instrument.
    UnknownInstrument,
    /// The validity test turned the record away.
    InvalidRecord,
}

/// The distance from `read_idx` up to `write_idx` on the 64-bit circle.
pub open spec fn occupancy(write_idx: u64, read_idx: u64) -> nat {
    if write_idx >= read_idx {
        (write_idx - read_idx) as nat
    } else {
        (write_idx - read_idx + 0x1_0000_0000_0000_0000) as nat
    }
}

/// The slot `offset` places past `start` in storage of `capacity` slots that
/// closes on itself.
pub open spec fn slot_at(start: int, capacity: int, offset: int) -> int {
    if start + offset >= capacity {
        start + offset - capacity
    } else {
        start + offset
    }
}

/// A ring as a mathematical value: the records it holds, oldest first, and
/// the counters that a reader of the ring can observe.
#[verifier::ext_equal]
pub struct RingState<T> {
    /// The queued records, oldest first.
    pub records: Seq<T>,
    /// The number of slots.
    pub capacity: nat,
    /// Whether writes test the record's validity.
    pub validating: bool,
    /// How many records the validity test has turned away.
    pub invalid_count: u64,
    /// How many records have been written, modulo `2^64`.
    pub write_idx: u64,
    /// How many records have been read, modulo `2^64`.
    pub read_idx: u64,
}

impl<T: UltraLowLatencyRecord> RingState<T> {
    /// A ring of `capacity` slots in which nothing has happened yet.
    pub open spec fn fresh(capacity: nat, validating: bool) -> Self {
        RingState {
            records: Seq::empty(),
            capacity,
            validating,
            invalid_count: 0,
            write_idx: 0,
            read_idx: 0,
        }
    }

    /// What holds of every ring: it has room for at least one record, never
    /// holds more than its capacity, and its counters are apart by the number
    /// of records it holds.
    pub open spec fn inv(self) -> bool {
        &&& 0 < self.capacity <= MAX_CAPACITY
        &&& self.records.len() <= self.capacity
        &&& occupancy(self.write_idx, self.read_idx) == self.records.len()
    }

    pub open spec fn is_empty(self) -> bool {
        self.records.len() == 0
    }

    pub open spec fn is_full(self) -> bool {
        self.records.len() >= self.capacity
    }

    /// What a write of `record` answers.
    pub open spec fn write_outcome(self, record: T) -> WriteOutcome {
        if self.is_full() {
            WriteOutcome::BufferFull
        } else if self.validating && !record.is_valid() {
            WriteOutcome::InvalidRecord
        } else {
            WriteOutcome::Written
        }
    }

    /// The ring after a write of `record` was attempted. A full ring stays as
    /// it is; a record that fails the validity test is counted; any other
    /// record goes to the back of the queue.
    pub open spec fn after_write(self, record: T) -> Self {
        match self.write_outcome(record) {
            WriteOutcome::Written => RingState {
                records: self.records.push(record),
                write_idx: bump(self.write_idx),
                ..self
            },
            WriteOutcome::InvalidRecord => RingState {
                invalid_count: bump(self.invalid_count),
                ..self
            },
            _ => self,
        }
    }

    /// What a read answers: the oldest record, if there is one.
    pub open spec fn read_result(self) -> Option<T> {
        if self.is_empty() {
            None
        } else {
            Some(self.records[0])
        }
    }

    /// The ring after a read: without its oldest record, if it had one.
    pub open spec fn after_read(self) -> Self {
        if self.is_empty() {
            self
        } else {
            RingState {
                records: self.records.subrange(1, self.records.len() as int),
                read_idx: bump(self.read_idx),
                ..self
            }
        }
    }

    /// The ring after each record of `batch` was offered in turn.
    pub open spec fn after_writes(self, batch: Seq<T>) -> Self
        decreases batch.len(),
    {
        if batch.len() == 0 {
            self
        } else {
            self.after_write(batch[0]).after_writes(batch.subrange(1, batch.len() as int))
        }
    }

    /// The ring after `count` reads.
    pub open spec fn after_reads(self, count: nat) -> Self
        decreases count,
    {
        if count == 0 {
            self
        } else {
            self.after_read().after_reads((count - 1) as nat)
        }
    }

    /// The records that `count` reads hand out, in the order they come;
    /// reads that find the ring empty hand out nothing.
    pub open spec fn reads(self, count: nat) -> Seq<T>
        decreases count,
    {
        if count == 0 {
            Seq::empty()
        } else {
            match self.read_result() {
                Some(record) => seq![record] + self.after_read().reads((count - 1) as nat),
                None => self.after_read().reads((count - 1) as nat),
            }
        }
    }
}

/// A bounded first-in, first-out queue of records in storage that is
/// allocated once, when the ring is built.
pub struct ZeroAllocRingBuffer<T: UltraLowLatencyRecord> {
    slots: Vec<Option<T>>,
    capacity: usize,
    write_idx: u64,
    read_idx: u64,
    write_pos: usize,
    read_pos: usize,
    validating: bool,
    invalid_count: u64,
}

/// A ring of trade prints.
pub type RingBuffer = ZeroAllocRingBuffer<Record>;

impl<T: UltraLowLatencyRecord> View for ZeroAllocRingBuffer<T> {
    type V = RingState<T>;

    closed spec fn view(&self) -> RingState<T> {
        RingState {
            records: Seq::new(
                occupancy(self.write_idx, self.read_idx),
                |i: int| self.slots@[self.slot_of(i)].unwrap(),
            ),
            capacity: self.capacity as nat,
            validating: self.validating,
            invalid_count: self.invalid_count,
            write_idx: self.write_idx,
            read_idx: self.read_idx,
        }
    }
}

impl<T: UltraLowLatencyRecord> ZeroAllocRingBuffer<T> {
    /// The slot that holds the record `offset` places behind the oldest.
    spec fn slot_of(&self, offset: int) -> int {
        slot_at(self.read_pos as int, self.capacity as int, offset)
    }

    /// The representation is sound: the cursors are inside the storage, the
    /// write cursor is as far ahead of the read cursor as the counters say,
    /// and every slot between them holds a record.
    pub closed spec fn wf(&self) -> bool {
        &&& 0 < self.capacity <= MAX_CAPACITY
        &&& self.slots@.len() == self.capacity
        &&& self.read_pos < self.capacity
        &&& self.write_pos < self.capacity
        &&& occupancy(self.write_idx, self.read_idx) <= self.capacity
        &&& self.write_pos == self.slot_of(occupancy(self.write_idx, self.read_idx) as int)
        &&& forall|i: int|
            0 <= i < occupancy(self.write_idx, self.read_idx) ==> (
            #[trigger] self.slots@[self.slot_of(i)]).is_some()
    }

    /// A well-formed ring satisfies the invariant of its model.
    pub proof fn lemma_wf_inv(&self)
        requires
            self.wf(),
        ensures
            self@.inv(),
    {
    }

    /// An empty ring of `capacity` slots.
    pub(crate) fn build(capacity: usize, validating: bool) -> (ring: Self)
        requires
            0 < capacity <= MAX_CAPACITY,
        ensures
            ring.wf(),
            ring@ == RingState::<T>::fresh(capacity as nat, validating),
    {
        let mut slots: Vec<Option<T>> = Vec::with_capacity(capacity);
        let mut filled: usize = 0;
        while filled < capacity
            invariant
                filled <= capacity,
                slots@.len() == filled,
            decreases capacity - filled,
        {
            slots.push(None);
            filled = filled + 1;
        }
        let ring = ZeroAllocRingBuffer {
            slots,
            capacity,
            write_idx: 0,
            read_idx: 0,
            write_pos: 0,
            read_pos: 0,
            validating,
            invalid_count: 0,
        };
        proof {
            assert(ring@.records =~= Seq::<T>::empty());
        }
        ring
    }

    /// An empty ring of `capacity` slots that stores whatever it is given.
    /// A capacity of zero, or one above `MAX_CAPACITY`, is refused.
    pub fn new(capacity: usize) -> (r: Result<Self, RingError>)
        ensures
            r.is_ok() <==> 0 < capacity <= MAX_CAPACITY,
            r matches Ok(ring) ==> ring.wf() && ring@ == RingState::<T>::fresh(
                capacity as nat,
                false,
            ),
    {
        if capacity == 0 || capacity > MAX_CAPACITY {
            return Err(RingError::InvalidCapacity);
        }
        Ok(Self::build(capacity, false))
    }

    /// An empty ring of `capacity` slots that turns away records failing
    /// their validity test.
    pub fn with_validation(capacity: usize) -> (r: Result<Self, RingError>)
        ensures
            r.is_ok() <==> 0 < capacity <= MAX_CAPACITY,
            r matches Ok(ring) ==> ring.wf() && ring@ == RingState::<T>::fresh(
                capacity as nat,
                true,
            ),
    {
        if capacity == 0 || capacity > MAX_CAPACITY {
            return Err(RingError::InvalidCapacity);
        }
        Ok(Self::build(capacity, true))
    }

    /// The number of records in the ring.
    pub fn len(&self) -> (n: usize)
        requires
            self.wf(),
        ensures
            n == self@.records.len(),
            n <= self@.capacity,
    {
        self.write_idx.wrapping_sub(self.read_idx) as usize
    }

    /// The number of slots.
    pub fn capacity(&self) -> (n: usize)
        requires
            self.wf(),
        ensures
            n == self@.capacity,
            0 < n <= MAX_CAPACITY,
    {
        self.capacity
    }

    /// Whether the ring holds no record.
    pub fn is_empty(&self) -> (empty: bool)
        requires
            self.wf(),
        ensures
            empty == self@.is_empty(),
    {
        self.write_idx == self.read_idx
    }

    /// Whether the ring holds as many records as it has slots.
    pub fn is_full(&self) -> (full: bool)
        requires
            self.wf(),
        ensures
            full == self@.is_full(),
    {
        self.len() == self.capacity
    }

    /// How many records the validity test has turned away.
    pub fn invalid_count(&self) -> (n: u64)
        ensures
            n == self@.invalid_count,
    {
        self.invalid_count
    }

    /// Offers `record` to the ring and says what became of it.
    pub fn try_write(&mut self, record: &T) -> (outcome: WriteOutcome)
        requires
            old(self).wf(),
        ensures
            final(self).wf(),
            outcome == old(self)@.write_outcome(*record),
            final(self)@ == old(self)@.after_write(*record),
    {
        if self.len() == self.capacity {
            return WriteOutcome::BufferFull;
        }
        if self.validating && !record.validate() {
            self.invalid_count = self.invalid_count.wrapping_add(1);
            proof {
                assert forall|i: int|
                    0 <= i < occupancy(self.write_idx, self.read_idx) implies (
                #[trigger] self.slots@[self.slot_of(i)]).is_some() by {
                    assert(self.slot_of(i) == old(self).slot_of(i));
                    assert(old(self).slots@[old(self).slot_of(i)].is_some());
                }
                assert(self@.records =~= old(self)@.records);
            }
            return WriteOutcome::InvalidRecord;
        }
        let ghost before = *self;
        let ghost held = occupancy(self.write_idx, self.read_idx) as int;
        self.slots.set(self.write_pos, Some(*record));
        self.write_pos = if self.write_pos + 1 == self.capacity {
            0
        } else {
            self.write_pos + 1
        };
        self.write_idx = self.write_idx.wrapping_add(1);
        proof {
            assert(occupancy(self.write_idx, self.read_idx) == held + 1);
            assert(before.slot_of(held) == before.write_pos);
            assert forall|i: int| 0 <= i < held + 1 implies (#[trigger] self.slots@[self.slot_of(
                i,
            )]).is_some() by {
                assert(self.slot_of(i) == before.slot_of(i));
                if i < held {
                    assert(before.slots@[before.slot_of(i)].is_some());
                }
            }
            assert forall|i: int| 0 <= i < held + 1 implies #[trigger] self@.records[i]
                == before@.records.push(*record)[i] by {
                assert(self.slot_of(i) == before.slot_of(i));
            }
            assert(self@.records =~= before@.records.push(*record));
        }
        WriteOutcome::Written
    }

    /// Puts `record` at the back of the queue. Answers `false`, and leaves the
    /// queue as it was, when the ring is full or the record fails a validity
    /// test that the ring applies.
    pub fn write(&mut self, record: &T) -> (written: bool)
        requires
            old(self).wf(),
        ensures
            final(self).wf(),
            written == (old(self)@.write_outcome(*record) == WriteOutcome::Written),
            final(self)@ == old(self)@.after_write(*record),
    {
        match self.try_write(record) {
            WriteOutcome::Written => true,
            _ => false,
        }
    }

    /// Takes the oldest record out of the ring, or answers `None` when the
    /// ring is empty.
    pub fn read(&mut self) -> (record: Option<T>)
        requires
            old(self).wf(),
        ensures
            final(self).wf(),
            record == old(self)@.read_result(),
            final(self)@ == old(self)@.after_read(),
    {
        if self.write_idx == self.read_idx {
            return None;
        }
        let ghost before = *self;
        let ghost held = occupancy(self.write_idx, self.read_idx) as int;
        proof {
            assert(self.slot_of(0) == self.read_pos);
            assert(self.slots@[self.slot_of(0)].is_some());
        }
        let slot: Option<T> = self.slots[self.read_pos];
        self.read_pos = if self.read_pos + 1 == self.capacity {
            0
        } else {
            self.read_pos + 1
        };
        self.read_idx = self.read_idx.wrapping_add(1);
        proof {
            assert(occupancy(self.write_idx, self.read_idx) == held - 1);
            assert forall|i: int| 0 <= i < held - 1 implies (#[trigger] self.slots@[self.slot_of(
                i,
            )]).is_some() by {
                assert(self.slot_of(i) == before.slot_of(i + 1));
                assert(before.slots@[before.slot_of(i + 1)].is_some());
            }
            assert forall|i: int| 0 <= i < held - 1 implies #[trigger] self@.records[i]
                == before@.records.subrange(1, held)[i] by {
                assert(self.slot_of(i) == before.slot_of(i + 1));
            }
            assert(self@.records =~= before@.records.subrange(1, held));
        }
        slot
    }
}

} // verus!
