use crate::memory::buffer_manager::{InstrumentBufferManager, ManagerState};
use crate::memory::ring_buffer::{RingError, WriteOutcome};
use crate::model::config::{BufferType, InstrumentBufferConfig};
use crate::model::record::UltraLowLatencyRecord;
use vstd::prelude::*;

verus! {

/// A store of market data with buffers per instrument. Quotes are written by
/// the token that the record itself names.
pub struct UltraLowLatencyDB<T: UltraLowLatencyRecord> {
    buffer_manager: InstrumentBufferManager<T>,
}

impl<T: UltraLowLatencyRecord> View for UltraLowLatencyDB<T> {
    type V = ManagerState<T>;

    closed spec fn view(&self) -> ManagerState<T> {
        self.buffer_manager@
    }
}

impl<T: UltraLowLatencyRecord> UltraLowLatencyDB<T> {
    pub closed spec fn wf(&self) -> bool {
        self.buffer_manager.wf()
    }

    /// A store with room for `capacity` instruments and rings of the default
    /// sizes.
    pub fn new(capacity: usize) -> (db: Self)
        ensures
            db.wf(),
            db@ == ManagerState::<T>::fresh(
                capacity as nat,
                (InstrumentBufferConfig {
                    l1_buffer_size: 65536,
                    l2_buffer_size: 32768,
                    ref_buffer_size: 8192,
                }),
                false,
            ),
    {
        UltraLowLatencyDB { buffer_manager: InstrumentBufferManager::with_default_config(capacity) }
    }

    /// A store with room for `capacity` instruments and rings sized by
    /// `config`. A configuration with a capacity that no ring can have is
    /// refused.
    pub fn with_config(capacity: usize, config: InstrumentBufferConfig) -> (r: Result<
        Self,
        RingError,
    >)
        ensures
            r.is_ok() <==> config.valid(),
            r matches Ok(db) ==> db.wf() && db@ == ManagerState::<T>::fresh(
                capacity as nat,
                config,
                false,
            ),
    {
        match InstrumentBufferManager::new(capacity, config) {
            Ok(buffer_manager) => Ok(UltraLowLatencyDB { buffer_manager }),
            Err(e) => Err(e),
        }
    }

    /// Registers `token` and answers its slot; see
    /// `InstrumentBufferManager::register_instrument`.
    pub fn register_instrument(&mut self, token: u64) -> (slot: Option<usize>)
        requires
            old(self).wf(),
        ensures
            final(self).wf(),
            slot == old(self)@.register_result(token),
            final(self)@ == old(self)@.after_register(token),
    {
        self.buffer_manager.register_instrument(token)
    }

    /// Writes `record` to the quote ring of the instrument that it names.
    pub fn write(&mut self, record: &T) -> (written: bool)
        requires
            old(self).wf(),
        ensures
            final(self).wf(),
            written == (old(self)@.write_outcome(record.token_of(), *record, BufferType::L1Price)
                == WriteOutcome::Written),
            final(self)@ == old(self)@.after_write(
                record.token_of(),
                *record,
                BufferType::L1Price,
            ),
    {
        let token = record.get_token();
        self.buffer_manager.write(token, record, BufferType::L1Price)
    }

    /// Takes the oldest quote of the instrument that was registered first.
    /// With no instrument registered the answer is `None`.
    pub fn read(&mut self) -> (record: Option<T>)
        requires
            old(self).wf(),
        ensures
            final(self).wf(),
            old(self)@.directory.tokens.len() == 0 ==> record.is_none() && final(self)@ == old(
                self,
            )@,
            old(self)@.directory.tokens.len() > 0 ==> record == old(self)@.read_result(
                old(self)@.directory.tokens[0],
                BufferType::L1Price,
            ) && final(self)@ == old(self)@.after_read(
                old(self)@.directory.tokens[0],
                BufferType::L1Price,
            ),
    {
        match self.buffer_manager.index().get_first_token() {
            Some(token) => self.buffer_manager.read(token, BufferType::L1Price),
            None => None,
        }
    }

    /// Writes `record` to the ring of `buffer_type` of `token`.
    pub fn write_to_buffer(&mut self, token: u64, record: &T, buffer_type: BufferType) -> (written:
        bool)
        requires
            old(self).wf(),
        ensures
            final(self).wf(),
            written == (old(self)@.write_outcome(token, *record, buffer_type)
                == WriteOutcome::Written),
            final(self)@ == old(self)@.after_write(token, *record, buffer_type),
    {
        self.buffer_manager.write(token, record, buffer_type)
    }

    /// Takes the oldest record out of the ring of `buffer_type` of `token`.
    pub fn read_from_buffer(&mut self, token: u64, buffer_type: BufferType) -> (record: Option<T>)
        requires
            old(self).wf(),
        ensures
            final(self).wf(),
            record == old(self)@.read_result(token, buffer_type),
            final(self)@ == old(self)@.after_read(token, buffer_type),
    {
        self.buffer_manager.read(token, buffer_type)
    }

    /// The manager of the buffers, for looking at.
    pub fn buffer_manager(&self) -> (manager: &InstrumentBufferManager<T>)
        requires
            self.wf(),
        ensures
            manager.wf(),
            manager@ == self@,
    {
        &self.buffer_manager
    }
}

} // verus!
