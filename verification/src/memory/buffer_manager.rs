use crate::memory::instrument_buffer::{BufferSetState, InstrumentBuffer};
use crate::memory::ring_buffer::{RingError, WriteOutcome};
use crate::model::config::{BufferType, InstrumentBufferConfig};
use crate::model::instrument_index::{DirectoryState, InstrumentIndex};
use crate::model::record::{bump, UltraLowLatencyRecord};
use vstd::prelude::*;

verus! {

/// The buffers of all instruments as a mathematical value: the directory, and
/// for each slot that is taken the buffers of its instrument.
#[verifier::ext_equal]
pub struct ManagerState<T> {
    /// Which token has which slot.
    pub directory: DirectoryState,
    /// The buffers of slot `i` are `sets[i]`; slots past the end have none.
    pub sets: Seq<BufferSetState<T>>,
    /// The ring capacities that each new instrument gets.
    pub config: InstrumentBufferConfig,
    /// Whether the rings test the validity of what is written.
    pub validating: bool,
    /// How many writes named a token that is not registered.
    pub unknown_count: u64,
}

impl<T: UltraLowLatencyRecord> ManagerState<T> {
    /// A manager with room for `capacity` instruments and none registered.
    pub open spec fn fresh(capacity: nat, config: InstrumentBufferConfig, validating: bool) -> Self {
        ManagerState {
            directory: DirectoryState::fresh(capacity),
            sets: Seq::empty(),
            config,
            validating,
            unknown_count: 0,
        }
    }

    /// What holds of every manager: a slot has buffers exactly when the
    /// directory has given it out, and they are those of the slot's token.
    pub open spec fn inv(self) -> bool {
        &&& self.directory.inv()
        &&& self.config.valid()
        &&& self.sets.len() == self.directory.tokens.len()
        &&& forall|i: int|
            0 <= i < self.sets.len() ==> (#[trigger] self.sets[i]).inv() && self.sets[i].token
                == self.directory.tokens[i]
    }

    /// The buffers of slot `slot`, if the slot is taken.
    pub open spec fn buffer_set(self, slot: int) -> Option<BufferSetState<T>> {
        if 0 <= slot < self.sets.len() {
            Some(self.sets[slot])
        } else {
            None
        }
    }

    /// The buffers of `token`, if it is registered.
    pub open spec fn set_of(self, token: u64) -> Option<BufferSetState<T>> {
        match self.directory.slot_of(token) {
            Some(slot) => Some(self.sets[slot as int]),
            None => None,
        }
    }

    /// What registering `token` answers: the token's slot, old or new, or
    /// nothing where the directory is full.
    pub open spec fn register_result(self, token: u64) -> Option<usize> {
        self.directory.register_result(token)
    }

    /// The manager after `token` was registered: a token that is new, and
    /// for which there is room, gets a slot and fresh buffers.
    pub open spec fn after_register(self, token: u64) -> Self {
        if !self.directory.tokens.contains(token) && self.directory.tokens.len()
            < self.directory.capacity {
            ManagerState {
                directory: self.directory.after_register(token),
                sets: self.sets.push(BufferSetState::fresh(token, self.config, self.validating)),
                ..self
            }
        } else {
            self
        }
    }

    /// What a write of `record` for `token` to the ring of `kind` answers.
    pub open spec fn write_outcome(self, token: u64, record: T, kind: BufferType) -> WriteOutcome {
        match self.set_of(token) {
            Some(set) => set.write_outcome(record, kind),
            None => WriteOutcome::UnknownInstrument,
        }
    }

    /// The manager after such a write was attempted. A write for a token
    /// that is not registered is counted and otherwise dropped.
    pub open spec fn after_write(self, token: u64, record: T, kind: BufferType) -> Self {
        match self.directory.slot_of(token) {
            Some(slot) => ManagerState {
                sets: self.sets.update(
                    slot as int,
                    self.sets[slot as int].after_write(record, kind),
                ),
                ..self
            },
            None => ManagerState { unknown_count: bump(self.unknown_count), ..self },
        }
    }

    /// What a read for `token` from the ring of `kind` answers.
    pub open spec fn read_result(self, token: u64, kind: BufferType) -> Option<T> {
        match self.set_of(token) {
            Some(set) => set.read_result(kind),
            None => None,
        }
    }

    /// The manager after such a read.
    pub open spec fn after_read(self, token: u64, kind: BufferType) -> Self {
        match self.directory.slot_of(token) {
            Some(slot) => ManagerState {
                sets: self.sets.update(slot as int, self.sets[slot as int].after_read(kind)),
                ..self
            },
            None => self,
        }
    }
}

/// The directory of instruments together with the buffers of each.
pub struct InstrumentBufferManager<T: UltraLowLatencyRecord> {
    index: InstrumentIndex,
    buffers: Vec<Option<InstrumentBuffer<T>>>,
    config: InstrumentBufferConfig,
    validating: bool,
    unknown_count: u64,
}

impl<T: UltraLowLatencyRecord> View for InstrumentBufferManager<T> {
    type V = ManagerState<T>;

    closed spec fn view(&self) -> ManagerState<T> {
        ManagerState {
            directory: self.index@,
            sets: Seq::new(self.index@.tokens.len(), |i: int| self.buffers@[i].unwrap()@),
            config: self.config,
            validating: self.validating,
            unknown_count: self.unknown_count,
        }
    }
}

impl<T: UltraLowLatencyRecord> InstrumentBufferManager<T> {
    /// There is one place for buffers per slot of the directory, and a place
    /// is filled exactly when its slot is taken.
    pub closed spec fn wf(&self) -> bool {
        &&& self.index.wf()
        &&& self.config.valid()
        &&& self.buffers@.len() == self.index@.capacity
        &&& self.index@.tokens.len() <= self.index@.capacity
        &&& forall|i: int|
            0 <= i < self.buffers@.len() ==> ((#[trigger] self.buffers@[i]).is_some() <==> i
                < self.index@.tokens.len())
        &&& forall|i: int|
            0 <= i < self.index@.tokens.len() ==> (#[trigger] self.buffers@[i]).unwrap().wf()
                && self.buffers@[i].unwrap()@.token == self.index@.tokens[i]
    }

    /// A well-formed manager satisfies the invariant of its model.
    pub proof fn lemma_wf_inv(&self)
        requires
            self.wf(),
        ensures
            self@.inv(),
    {
        self.index.lemma_wf_inv();
        assert forall|i: int| 0 <= i < self@.sets.len() implies (#[trigger] self@.sets[i]).inv()
            && self@.sets[i].token == self@.directory.tokens[i] by {
            self.buffers@[i].unwrap().lemma_wf_inv();
        }
    }

    fn build(capacity: usize, config: InstrumentBufferConfig, validating: bool) -> (manager: Self)
        requires
            config.valid(),
        ensures
            manager.wf(),
            manager@ == ManagerState::<T>::fresh(capacity as nat, config, validating),
    {
        let mut buffers: Vec<Option<InstrumentBuffer<T>>> = Vec::new();
        let mut filled: usize = 0;
        while filled < capacity
            invariant
                filled <= capacity,
                buffers@.len() == filled,
                forall|i: int| 0 <= i < filled ==> (#[trigger] buffers@[i]).is_none(),
            decreases capacity - filled,
        {
            buffers.push(None);
            filled = filled + 1;
        }
        let manager = InstrumentBufferManager {
            index: InstrumentIndex::new(capacity),
            buffers,
            config,
            validating,
            unknown_count: 0,
        };
        proof {
            assert(manager@.sets =~= Seq::<BufferSetState<T>>::empty());
        }
        manager
    }

    /// A manager with room for `capacity` instruments, each of which gets
    /// rings sized by `config`. A configuration with a capacity that no ring
    /// can have is refused.
    pub fn new(capacity: usize, config: InstrumentBufferConfig) -> (r: Result<Self, RingError>)
        ensures
            r.is_ok() <==> config.valid(),
            r matches Ok(manager) ==> manager.wf() && manager@ == ManagerState::<T>::fresh(
                capacity as nat,
                config,
                false,
            ),
    {
        if !config.is_valid() {
            return Err(RingError::InvalidCapacity);
        }
        Ok(Self::build(capacity, config, false))
    }

    /// Like `new`, with rings that turn away records failing their
    /// validity test.
    pub fn with_validation(capacity: usize, config: InstrumentBufferConfig) -> (r: Result<
        Self,
        RingError,
    >)
        ensures
            r.is_ok() <==> config.valid(),
            r matches Ok(manager) ==> manager.wf() && manager@ == ManagerState::<T>::fresh(
                capacity as nat,
                config,
                true,
            ),
    {
        if !config.is_valid() {
            return Err(RingError::InvalidCapacity);
        }
        Ok(Self::build(capacity, config, true))
    }

    /// A manager with room for `capacity` instruments and rings of the
    /// default sizes.
    pub fn with_default_config(capacity: usize) -> (manager: Self)
        ensures
            manager.wf(),
            manager@ == ManagerState::<T>::fresh(
                capacity as nat,
                (InstrumentBufferConfig {
                    l1_buffer_size: 65536,
                    l2_buffer_size: 32768,
                    ref_buffer_size: 8192,
                }),
                false,
            ),
    {
        Self::build(capacity, InstrumentBufferConfig::default(), false)
    }

    /// Registers `token` and answers its slot. The first registration of a
    /// token builds its buffers; later ones change nothing. Where the
    /// directory is full a new token gets `None`.
    pub fn register_instrument(&mut self, token: u64) -> (slot: Option<usize>)
        requires
            old(self).wf(),
        ensures
            final(self).wf(),
            slot == old(self)@.register_result(token),
            final(self)@ == old(self)@.after_register(token),
            slot matches Some(i) ==> final(self)@.directory.holds(token, i as int),
    {
        proof {
            self.index.lemma_wf_inv();
        }
        let known = self.index.get_buffer_index(token);
        match known {
            Some(slot) => {
                return Some(slot);
            },
            None => {},
        }
        let registered = self.index.register_instrument(token);
        match registered {
            Some(slot) => {
                let set = InstrumentBuffer::build(token, &self.config, self.validating);
                self.buffers.set(slot, Some(set));
                proof {
                    assert(!old(self).index@.tokens.contains(token));
                    assert(slot == old(self).index@.tokens.len());
                    assert(self.index@.tokens == old(self).index@.tokens.push(token));
                    assert forall|i: int| 0 <= i < self.index@.tokens.len() implies (
                    #[trigger] self.buffers@[i]).unwrap().wf() && self.buffers@[i].unwrap()@.token
                        == self.index@.tokens[i] by {
                        if i < slot {
                            assert(self.buffers@[i] == old(self).buffers@[i]);
                            assert(old(self).buffers@[i].unwrap().wf());
                            assert(self.index@.tokens[i] == old(self).index@.tokens[i]);
                        }
                    }
                    assert forall|i: int| 0 <= i < self.buffers@.len() implies ((
                    #[trigger] self.buffers@[i]).is_some() <==> i < self.index@.tokens.len()) by {
                        if i != slot {
                            assert(self.buffers@[i] == old(self).buffers@[i]);
                        }
                    }
                    assert(self@.sets =~= old(self)@.sets.push(
                        BufferSetState::fresh(token, self.config, self.validating),
                    ));
                }
                Some(slot)
            },
            None => {
                proof {
                    assert(self@.sets =~= old(self)@.sets);
                }
                None
            },
        }
    }

    /// The buffers of `token`, for looking at.
    pub fn get_instrument_buffer(&self, token: u64) -> (set: Option<&InstrumentBuffer<T>>)
        requires
            self.wf(),
        ensures
            set.is_some() == self@.set_of(token).is_some(),
            set matches Some(found) ==> found.wf() && Some(found@) == self@.set_of(token),
    {
        match self.index.get_buffer_index(token) {
            Some(slot) => {
                proof {
                    assert(self.buffers@[slot as int].is_some());
                    assert(self.buffers@[slot as int].unwrap().wf());
                }
                self.buffers[slot].as_ref()
            },
            None => None,
        }
    }

    /// Offers `record` to the ring of `buffer_type` of `token` and says what
    /// became of it.
    pub fn try_write(&mut self, token: u64, record: &T, buffer_type: BufferType) -> (outcome:
        WriteOutcome)
        requires
            old(self).wf(),
        ensures
            final(self).wf(),
            outcome == old(self)@.write_outcome(token, *record, buffer_type),
            final(self)@ == old(self)@.after_write(token, *record, buffer_type),
    {
        match self.index.get_buffer_index(token) {
            Some(slot) => {
                proof {
                    assert(self.buffers@[slot as int].is_some());
                    assert(self.buffers@[slot as int].unwrap().wf());
                }
                let outcome = match &mut self.buffers[slot] {
                    Some(set) => set.try_write(record, buffer_type),
                    None => WriteOutcome::UnknownInstrument,
                };
                proof {
                    assert forall|i: int| 0 <= i < self.index@.tokens.len() implies (
                    #[trigger] self.buffers@[i]).unwrap().wf() && self.buffers@[i].unwrap()@.token
                        == self.index@.tokens[i] by {
                        if i != slot {
                            assert(self.buffers@[i] == old(self).buffers@[i]);
                            assert(old(self).buffers@[i].unwrap().wf());
                        }
                    }
                    assert(self@.sets =~= old(self)@.after_write(token, *record, buffer_type).sets);
                }
                outcome
            },
            None => {
                self.unknown_count = self.unknown_count.wrapping_add(1);
                proof {
                    assert(self@.sets =~= old(self)@.sets);
                }
                WriteOutcome::UnknownInstrument
            },
        }
    }

    /// Writes `record` to the ring of `buffer_type` of `token`. Answers
    /// `false` for a token that is not registered, and otherwise what the
    /// token's buffers answer.
    pub fn write(&mut self, token: u64, record: &T, buffer_type: BufferType) -> (written: bool)
        requires
            old(self).wf(),
        ensures
            final(self).wf(),
            written == (old(self)@.write_outcome(token, *record, buffer_type)
                == WriteOutcome::Written),
            final(self)@ == old(self)@.after_write(token, *record, buffer_type),
    {
        match self.try_write(token, record, buffer_type) {
            WriteOutcome::Written => true,
            _ => false,
        }
    }

    /// Takes the oldest record out of the ring of `buffer_type` of `token`.
    pub fn read(&mut self, token: u64, buffer_type: BufferType) -> (record: Option<T>)
        requires
            old(self).wf(),
        ensures
            final(self).wf(),
            record == old(self)@.read_result(token, buffer_type),
            final(self)@ == old(self)@.after_read(token, buffer_type),
    {
        match self.index.get_buffer_index(token) {
            Some(slot) => {
                proof {
                    assert(self.buffers@[slot as int].is_some());
                    assert(self.buffers@[slot as int].unwrap().wf());
                }
                let record = match &mut self.buffers[slot] {
                    Some(set) => set.read(buffer_type),
                    None => None,
                };
                proof {
                    assert forall|i: int| 0 <= i < self.index@.tokens.len() implies (
                    #[trigger] self.buffers@[i]).unwrap().wf() && self.buffers@[i].unwrap()@.token
                        == self.index@.tokens[i] by {
                        if i != slot {
                            assert(self.buffers@[i] == old(self).buffers@[i]);
                            assert(old(self).buffers@[i].unwrap().wf());
                        }
                    }
                    assert(self@.sets =~= old(self)@.after_read(token, buffer_type).sets);
                }
                record
            },
            None => None,
        }
    }

    /// The directory, for looking at.
    pub fn index(&self) -> (index: &InstrumentIndex)
        requires
            self.wf(),
        ensures
            index.wf(),
            index@ == self@.directory,
    {
        &self.index
    }

    /// How many writes named a token that is not registered.
    pub fn unknown_count(&self) -> (n: u64)
        ensures
            n == self@.unknown_count,
    {
        self.unknown_count
    }
}

} // verus!
