use crate::memory::ring_buffer::{
    RingError, RingState, WriteOutcome, ZeroAllocRingBuffer, MAX_CAPACITY,
};
use crate::model::config::DatabaseConfig;
use crate::model::record::{bump, Record};
use crate::model::types::{Price, Quantity, SymbolId};
use dashmap::DashMap;
use vstd::prelude::*;

verus! {

/// A concurrent hash map from `dashmap`.
#[verifier::external_type_specification]
#[verifier::external_body]
#[verifier::reject_recursive_types(K)]
#[verifier::reject_recursive_types(V)]
#[verifier::reject_recursive_types(S)]
pub struct ExDashMap<K, V, S>(DashMap<K, V, S>);

/// The map from symbols to the places of their rings.
pub type SlotMap = DashMap<u32, usize>;

/// What `map` holds: for each symbol the place of its ring.
pub uninterp spec fn symbol_slots(map: SlotMap) -> Map<u32, usize>;

/// The map without any symbol.
pub open spec fn no_slots() -> Map<u32, usize> {
    Map::empty()
}

/// `DashMap::with_capacity`: a map that holds nothing. The capacity is held
/// low enough that rounding it up to the number of shards stays in range.
#[verifier::external_body]
fn slots_with_capacity(capacity: usize) -> (slots: SlotMap)
    requires
        capacity <= MAX_CAPACITY,
    ensures
        symbol_slots(slots) == no_slots(),
{
    DashMap::with_capacity(capacity)
}

/// `DashMap::get`: the value under `symbol`, if there is one.
#[verifier::external_body]
fn slots_get(map: &SlotMap, symbol: u32) -> (place: Option<usize>)
    ensures
        place == (if symbol_slots(*map).contains_key(symbol) {
            Some(symbol_slots(*map)[symbol])
        } else {
            None
        }),
{
    map.get(&symbol).map(|entry| *entry)
}

/// `DashMap::insert`: `place` is the value under `symbol` from now on; the
/// answer is the value that was there before, if there was one.
#[verifier::external_body]
fn slots_insert(map: &mut SlotMap, symbol: u32, place: usize) -> (previous: Option<
    usize,
>)
    ensures
        symbol_slots(*final(map)) == symbol_slots(*old(map)).insert(symbol, place),
        previous == (if symbol_slots(*old(map)).contains_key(symbol) {
            Some(symbol_slots(*old(map))[symbol])
        } else {
            None
        }),
{
    map.insert(symbol, place)
}

/// `DashMap::len`: the number of keys.
#[verifier::external_body]
fn slots_len(map: &SlotMap) -> (n: usize)
    ensures
        symbol_slots(*map).dom().finite() ==> n == symbol_slots(*map).dom().len(),
{
    map.len()
}

/// A store with one ring per symbol as a mathematical value.
#[verifier::ext_equal]
pub struct DatabaseState {
    /// The ring of each symbol that has been written to.
    pub rings: Map<u32, RingState<Record>>,
    /// The capacity that each new ring gets.
    pub capacity: nat,
    /// The identifier that the next record gets.
    pub next_id: u64,
}

impl DatabaseState {
    /// A store in which no symbol has a ring yet.
    pub open spec fn fresh(capacity: nat) -> Self {
        DatabaseState { rings: Map::empty(), capacity, next_id: 0 }
    }

    /// The ring of `symbol`; an empty one where the symbol has none yet.
    pub open spec fn ring_of(self, symbol: u32) -> RingState<Record> {
        if self.rings.contains_key(symbol) {
            self.rings[symbol]
        } else {
            RingState::fresh(self.capacity, false)
        }
    }

    /// What a write of `record` to the ring of its symbol answers.
    pub open spec fn write_outcome(self, record: Record) -> WriteOutcome {
        self.ring_of(record.symbol_id).write_outcome(record)
    }

    /// The store after `record` was offered to the ring of its symbol. A
    /// symbol that had no ring has one from now on.
    pub open spec fn after_write(self, record: Record) -> Self {
        DatabaseState {
            rings: self.rings.insert(
                record.symbol_id,
                self.ring_of(record.symbol_id).after_write(record),
            ),
            ..self
        }
    }

    /// What a read from the ring of `symbol` answers.
    pub open spec fn read_result(self, symbol: u32) -> Option<Record> {
        if self.rings.contains_key(symbol) {
            self.rings[symbol].read_result()
        } else {
            None
        }
    }

    /// The store after a read from the ring of `symbol`.
    pub open spec fn after_read(self, symbol: u32) -> Self {
        if self.rings.contains_key(symbol) {
            DatabaseState {
                rings: self.rings.insert(symbol, self.rings[symbol].after_read()),
                ..self
            }
        } else {
            self
        }
    }
}

/// A store of trade prints with one ring per symbol, made when the symbol
/// is first written to.
pub struct Database {
    slots: SlotMap,
    rings: Vec<ZeroAllocRingBuffer<Record>>,
    config: DatabaseConfig,
    next_id: u64,
}

impl View for Database {
    type V = DatabaseState;

    closed spec fn view(&self) -> DatabaseState {
        DatabaseState {
            rings: Map::new(
                |symbol: u32| symbol_slots(self.slots).contains_key(symbol),
                |symbol: u32| self.rings@[symbol_slots(self.slots)[symbol] as int]@,
            ),
            capacity: self.config.buffer_capacity as nat,
            next_id: self.next_id,
        }
    }
}

impl Database {
    /// Every symbol has a ring of its own among the rings there are.
    pub closed spec fn wf(&self) -> bool {
        &&& 0 < self.config.buffer_capacity <= MAX_CAPACITY
        &&& symbol_slots(self.slots).dom().finite()
        &&& symbol_slots(self.slots).dom().len() == self.rings@.len()
        &&& forall|symbol: u32| #[trigger]
            symbol_slots(self.slots).contains_key(symbol) ==> symbol_slots(self.slots)[symbol]
                < self.rings@.len()
        &&& forall|a: u32, b: u32|
            symbol_slots(self.slots).contains_key(a) && symbol_slots(self.slots).contains_key(b)
                && a != b ==> #[trigger] symbol_slots(self.slots)[a] != #[trigger] symbol_slots(
                self.slots,
            )[b]
        &&& forall|i: int| 0 <= i < self.rings@.len() ==> (#[trigger] self.rings@[i]).wf()
    }

    /// A store sized by `config`. A ring capacity that no ring can have, or
    /// room for more symbols than a ring has slots at most, is refused.
    pub fn new(config: DatabaseConfig) -> (r: Result<Self, RingError>)
        ensures
            r.is_ok() <==> 0 < config.buffer_capacity <= MAX_CAPACITY && config.num_partitions
                <= MAX_CAPACITY,
            r matches Ok(db) ==> db.wf() && db@ == DatabaseState::fresh(
                config.buffer_capacity as nat,
            ),
    {
        if config.buffer_capacity == 0 || config.buffer_capacity > MAX_CAPACITY
            || config.num_partitions > MAX_CAPACITY {
            return Err(RingError::InvalidCapacity);
        }
        let db = Database {
            slots: slots_with_capacity(config.num_partitions),
            rings: Vec::new(),
            config,
            next_id: 0,
        };
        proof {
            assert(db@.rings =~= Map::<u32, RingState<Record>>::empty());
        }
        Ok(db)
    }

    /// A store of the default size.
    pub fn default() -> (db: Self)
        ensures
            db.wf(),
            db@ == DatabaseState::fresh(16384),
    {
        let config = DatabaseConfig { buffer_capacity: 16384, num_partitions: 64 };
        let db = Database {
            slots: slots_with_capacity(config.num_partitions),
            rings: Vec::new(),
            config,
            next_id: 0,
        };
        proof {
            assert(db@.rings =~= Map::<u32, RingState<Record>>::empty());
        }
        db
    }

    /// Offers `record` to the ring of its symbol, which is made first if the
    /// symbol has none.
    pub fn write_record(&mut self, record: &Record) -> (written: bool)
        requires
            old(self).wf(),
        ensures
            final(self).wf(),
            written == (old(self)@.write_outcome(*record) == WriteOutcome::Written),
            final(self)@ == old(self)@.after_write(*record),
    {
        let symbol = record.symbol_id;
        let place = match slots_get(&self.slots, symbol) {
            Some(place) => place,
            None => {
                let place = self.rings.len();
                self.rings.push(ZeroAllocRingBuffer::build(self.config.buffer_capacity, false));
                slots_insert(&mut self.slots, symbol, place);
                proof {
                    assert(symbol_slots(self.slots).dom() =~= symbol_slots(
                        old(self).slots,
                    ).dom().insert(symbol));
                }
                place
            },
        };
        let ghost mid = *self;
        proof {
            assert(mid.wf());
            assert(mid.rings@[place as int]@ == old(self)@.ring_of(symbol));
        }
        let written = self.rings[place].write(record);
        proof {
            assert forall|i: int| 0 <= i < self.rings@.len() implies (
            #[trigger] self.rings@[i]).wf() by {
                if i != place {
                    assert(self.rings@[i] == mid.rings@[i]);
                }
            }
            assert(self@.rings =~= old(self)@.after_write(*record).rings);
        }
        written
    }

    /// Writes a print of `quantity` at `price` for `symbol_id`, numbered with
    /// the next identifier and stamped with the wall clock's present reading.
    pub fn write(&mut self, symbol_id: SymbolId, price: Price, quantity: Quantity) -> (written:
        bool)
        requires
            old(self).wf(),
        ensures
            final(self).wf(),
            exists|record: Record|
                {
                    &&& record.id == old(self)@.next_id
                    &&& record.symbol_id == symbol_id
                    &&& record.price == price
                    &&& record.quantity == quantity
                    &&& record.flags == 0
                    &&& written == (#[trigger] old(self)@.write_outcome(record)
                        == WriteOutcome::Written)
                    &&& final(self)@ == (DatabaseState {
                        next_id: bump(old(self)@.next_id),
                        ..old(self)@.after_write(record)
                    })
                },
    {
        let id = self.next_id;
        self.next_id = id.wrapping_add(1);
        let record = Record::with_current_time(id, symbol_id, price, quantity, 0);
        let ghost numbered = self@;
        let written = self.write_record(&record);
        proof {
            assert(numbered.rings =~= old(self)@.rings);
            assert(numbered.write_outcome(record) == old(self)@.write_outcome(record));
            assert(self@.rings =~= old(self)@.after_write(record).rings);
        }
        written
    }

    /// Takes the oldest print of `symbol_id` out of its ring.
    pub fn read_latest(&mut self, symbol_id: SymbolId) -> (record: Option<Record>)
        requires
            old(self).wf(),
        ensures
            final(self).wf(),
            record == old(self)@.read_result(symbol_id),
            final(self)@ == old(self)@.after_read(symbol_id),
    {
        match slots_get(&self.slots, symbol_id) {
            Some(place) => {
                let record = self.rings[place].read();
                proof {
                    assert forall|i: int| 0 <= i < self.rings@.len() implies (
                    #[trigger] self.rings@[i]).wf() by {
                        if i != place {
                            assert(self.rings@[i] == old(self).rings@[i]);
                        }
                    }
                    assert(self@.rings =~= old(self)@.after_read(symbol_id).rings);
                }
                record
            },
            None => None,
        }
    }

    /// Whether the ring of `symbol_id` holds no print; a symbol without a
    /// ring counts as empty.
    pub fn is_empty(&self, symbol_id: SymbolId) -> (empty: bool)
        requires
            self.wf(),
        ensures
            empty == self@.ring_of(symbol_id).is_empty(),
    {
        match slots_get(&self.slots, symbol_id) {
            Some(place) => self.rings[place].is_empty(),
            None => true,
        }
    }

    /// Whether the ring of `symbol_id` is full; a symbol without a ring
    /// counts as not full.
    pub fn is_full(&self, symbol_id: SymbolId) -> (full: bool)
        requires
            self.wf(),
        ensures
            full == self@.ring_of(symbol_id).is_full(),
    {
        match slots_get(&self.slots, symbol_id) {
            Some(place) => self.rings[place].is_full(),
            None => false,
        }
    }

    /// The number of symbols that have a ring.
    pub fn num_symbols(&self) -> (n: usize)
        requires
            self.wf(),
        ensures
            n == self@.rings.dom().len(),
    {
        proof {
            assert(self@.rings.dom() =~= symbol_slots(self.slots).dom());
        }
        slots_len(&self.slots)
    }
}

} // verus!
