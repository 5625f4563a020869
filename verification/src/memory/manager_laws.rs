//! What holds of every buffer manager, proved over its model.

use crate::memory::buffer_manager::ManagerState;
use crate::memory::instrument_buffer::{
    lemma_read_keeps_inv, lemma_write_keeps_inv, BufferSetState,
};
use crate::memory::ring_buffer::{occupancy, WriteOutcome};
use crate::model::config::BufferType;
use crate::model::instrument_index::{
    lemma_lookup_after_register, lemma_register_is_idempotent, lemma_register_is_monotone,
    lemma_slot_is_unique,
};
use crate::model::record::{bump, UltraLowLatencyRecord};
use vstd::prelude::*;

verus! {

/// The buffers of a token are those of the slot where the token stands.
pub proof fn lemma_buffers_of_slot<T: UltraLowLatencyRecord>(
    manager: ManagerState<T>,
    token: u64,
    slot: int,
)
    requires
        manager.inv(),
        manager.directory.holds(token, slot),
    ensures
        manager.directory.slot_of(token) == Some(slot as usize),
        manager.set_of(token) == Some(manager.sets[slot]),
        manager.set_of(token) == manager.buffer_set(slot),
{
    lemma_slot_is_unique(manager.directory, token, slot);
}

/// Fresh buffers satisfy the invariant of a buffer set.
pub proof fn lemma_fresh_buffers_inv<T: UltraLowLatencyRecord>(manager: ManagerState<T>, token: u64)
    requires
        manager.config.valid(),
    ensures
        BufferSetState::<T>::fresh(token, manager.config, manager.validating).inv(),
{
    assert(occupancy(0, 0) == 0);
}

/// Registration keeps the invariant: afterwards, as before, a slot has
/// buffers exactly when the directory has given it out. The buffers that
/// were there stay as they were, and a token that got a slot has buffers of
/// its own, still empty if the slot is new.
pub proof fn lemma_register_keeps_inv<T: UltraLowLatencyRecord>(manager: ManagerState<T>, token: u64)
    requires
        manager.inv(),
    ensures
        manager.after_register(token).inv(),
        manager.sets.is_prefix_of(manager.after_register(token).sets),
        forall|slot: int|
            manager.after_register(token).buffer_set(slot).is_some() <==> 0 <= slot
                < manager.after_register(token).directory.tokens.len(),
        manager.register_result(token) matches Some(slot) ==> manager.after_register(token).set_of(
            token,
        ) == manager.after_register(token).buffer_set(slot as int)
            && manager.after_register(token).set_of(token).is_some(),
        !manager.directory.tokens.contains(token) ==> (manager.register_result(token) matches Some(
            slot,
        ) ==> manager.after_register(token).set_of(token) == Some(
            BufferSetState::<T>::fresh(token, manager.config, manager.validating),
        )),
{
    let after = manager.after_register(token);
    lemma_register_is_monotone(manager.directory, token, token);
    lemma_lookup_after_register(manager.directory, token);
    lemma_fresh_buffers_inv(manager, token);
    assert(after.directory == manager.directory.after_register(token));
    assert(manager.sets =~= after.sets.subrange(0, manager.sets.len() as int));
    if manager.register_result(token).is_some() {
        let slot = manager.register_result(token).unwrap();
        assert(after.directory.slot_of(token) == Some(slot));
        if manager.directory.tokens.contains(token) {
            let at = manager.directory.tokens.index_of(token);
            assert(manager.directory.holds(token, at));
            lemma_slot_is_unique(manager.directory, token, at);
        }
    }
}

/// Registering a token again answers the same slot and changes nothing:
/// there is exactly one set of buffers per token.
pub proof fn lemma_register_twice<T: UltraLowLatencyRecord>(manager: ManagerState<T>, token: u64)
    requires
        manager.inv(),
    ensures
        manager.after_register(token).after_register(token) == manager.after_register(token),
        manager.after_register(token).register_result(token) == manager.register_result(token),
{
    lemma_register_is_idempotent(manager.directory, token, 1);
    lemma_register_is_idempotent(manager.directory, token, 2);
    let once = manager.directory.after_register(token);
    assert(once.after_registers(token, 1) == once.after_register(token)) by {
        assert(once.after_register(token).after_registers(token, 0) == once.after_register(token));
    }
    assert(manager.directory.after_registers(token, 2) == once.after_registers(token, 1));
    let after = manager.after_register(token);
    if !manager.directory.tokens.contains(token) && manager.directory.tokens.len()
        < manager.directory.capacity {
        assert(once.holds(token, manager.directory.tokens.len() as int));
        assert(once.tokens.contains(token));
    }
}

/// A write for a token that is not registered is dropped: it answers
/// `UnknownInstrument` and changes nothing but the count of such writes. A
/// read for such a token answers nothing and changes nothing.
pub proof fn lemma_unknown_token_is_dropped<T: UltraLowLatencyRecord>(
    manager: ManagerState<T>,
    token: u64,
    record: T,
    kind: BufferType,
)
    requires
        !manager.directory.tokens.contains(token),
    ensures
        manager.write_outcome(token, record, kind) == WriteOutcome::UnknownInstrument,
        manager.after_write(token, record, kind) == (ManagerState {
            unknown_count: bump(manager.unknown_count),
            ..manager
        }),
        manager.read_result(token, kind).is_none(),
        manager.after_read(token, kind) == manager,
{
}

/// A write and a read keep the invariant and leave the directory and the
/// buffers of every other instrument as they were.
pub proof fn lemma_write_reaches_one_instrument<T: UltraLowLatencyRecord>(
    manager: ManagerState<T>,
    token: u64,
    record: T,
    kind: BufferType,
    other: u64,
)
    requires
        manager.inv(),
    ensures
        manager.after_write(token, record, kind).inv(),
        manager.after_read(token, kind).inv(),
        manager.after_write(token, record, kind).directory == manager.directory,
        manager.after_read(token, kind).directory == manager.directory,
        other != token ==> manager.after_write(token, record, kind).set_of(other) == manager.set_of(
            other,
        ),
        other != token ==> manager.after_read(token, kind).set_of(other) == manager.set_of(other),
{
    match manager.directory.slot_of(token) {
        Some(slot) => {
            let at = manager.directory.tokens.index_of(token);
            assert(manager.directory.tokens.contains(token));
            assert(manager.directory.holds(token, at));
            assert(slot == at);
            lemma_write_keeps_inv(manager.sets[at], record, kind);
            lemma_read_keeps_inv(manager.sets[at], kind);
            if other != token && manager.directory.tokens.contains(other) {
                let there = manager.directory.tokens.index_of(other);
                assert(manager.directory.holds(other, there));
                assert(there != at);
            }
        },
        None => {},
    }
}

} // verus!
