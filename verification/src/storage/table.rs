use crate::memory::low_latency_mpmc_ring::{is_power_of_two, LowLatencyMpmcRing};
use crate::memory::ring_buffer::MAX_CAPACITY;
use vstd::prelude::*;
use vstd::slice::slice_to_vec;

verus! {

/// Sizing of one field of a table.
#[derive(Debug, Clone, Copy, PartialEq, Eq, Structural)]
pub struct FieldConfig {
    /// Bytes that one value of the field takes.
    pub field_size_bytes: usize,
    /// Places in the field's queue.
    pub ring_capacity: usize,
}

impl FieldConfig {
    /// Whether a queue can be built with the configured number of places: a
    /// power of two between 2 and `MAX_CAPACITY`.
    pub open spec fn valid(&self) -> bool {
        is_power_of_two(self.ring_capacity as u64) && 2 <= self.ring_capacity <= MAX_CAPACITY
    }

    /// Whether a queue can be built with the configured number of places.
    pub fn is_valid(&self) -> (ok: bool)
        ensures
            ok == self.valid(),
    {
        if self.ring_capacity < 2 || self.ring_capacity > MAX_CAPACITY {
            return false;
        }
        let wide = self.ring_capacity as u64;
        wide & (wide - 1) == 0
    }
}

/// The fields of a table, in the order of their columns.
#[derive(Debug, Clone)]
pub struct TableConfig {
    pub fields: Vec<(String, FieldConfig)>,
}

impl TableConfig {
    /// Whether a queue can be built for every field.
    pub open spec fn valid(&self) -> bool {
        forall|i: int| 0 <= i < self.fields@.len() ==> (#[trigger] self.fields@[i]).1.valid()
    }

    /// Whether a queue can be built for every field.
    pub fn is_valid(&self) -> (ok: bool)
        ensures
            ok == self.valid(),
    {
        let mut i: usize = 0;
        while i < self.fields.len()
            invariant
                i <= self.fields@.len(),
                forall|j: int| 0 <= j < i ==> (#[trigger] self.fields@[j]).1.valid(),
            decreases self.fields@.len() - i,
        {
            if !self.fields[i].1.is_valid() {
                return false;
            }
            i = i + 1;
        }
        true
    }
}

/// Why a table could not be built.
#[derive(Debug, Clone, Copy, PartialEq, Eq, Structural)]
pub enum TableError {
    /// A field asks for a queue that cannot be built.
    InvalidField,
}

/// A table as a mathematical value: per column the values that wait in it,
/// oldest first, and the number of records the table counts as stored.
#[verifier::ext_equal]
pub struct TableState {
    /// The queue of each column.
    pub columns: Seq<Seq<Seq<u8>>>,
    /// The places in the queue of each column.
    pub capacities: Seq<nat>,
    /// Records written and not yet read.
    pub record_count: nat,
}

impl TableState {
    /// The most records the table takes: the places of its first column, or
    /// none where it has no column.
    pub open spec fn capacity(self) -> nat {
        if self.capacities.len() == 0 {
            0
        } else {
            self.capacities[0]
        }
    }

    /// Whether a record with these values, one per column where it has one,
    /// can be written: the table is below its capacity, the record has a
    /// place for every column, and every column it has a value for has room.
    pub open spec fn accepts(self, values: Seq<Option<Seq<u8>>>) -> bool {
        &&& self.record_count < self.capacity()
        &&& values.len() == self.columns.len()
        &&& forall|i: int|
            0 <= i < values.len() && (#[trigger] values[i]).is_some() ==> self.columns[i].len()
                < self.capacities[i]
    }

    /// The table after such a record was offered: all of its values are
    /// queued or, where the table does not accept it, none is.
    pub open spec fn after_write(self, values: Seq<Option<Seq<u8>>>) -> Self {
        if self.accepts(values) {
            TableState {
                columns: Seq::new(
                    self.columns.len(),
                    |i: int|
                        match values[i] {
                            Some(value) => self.columns[i].push(value),
                            None => self.columns[i],
                        },
                ),
                record_count: self.record_count + 1,
                ..self
            }
        } else {
            self
        }
    }

    /// Whether a record can be read: one is counted as stored, and every
    /// column has a value waiting.
    pub open spec fn readable(self) -> bool {
        &&& self.record_count > 0
        &&& forall|i: int| 0 <= i < self.columns.len() ==> (#[trigger] self.columns[i]).len() > 0
    }

    /// What a read answers: the oldest value of every column.
    pub open spec fn read_result(self) -> Option<Seq<Seq<u8>>> {
        if self.readable() {
            Some(Seq::new(self.columns.len(), |i: int| self.columns[i][0]))
        } else {
            None
        }
    }

    /// The table after a read: every column without its oldest value or,
    /// where no record can be read, as it was.
    pub open spec fn after_read(self) -> Self {
        if self.readable() {
            TableState {
                columns: Seq::new(
                    self.columns.len(),
                    |i: int| self.columns[i].subrange(1, self.columns[i].len() as int),
                ),
                record_count: (self.record_count - 1) as nat,
                ..self
            }
        } else {
            self
        }
    }
}

/// The bytes of each item of a queue.
pub open spec fn contents(items: Seq<Vec<u8>>) -> Seq<Seq<u8>> {
    Seq::new(items.len(), |k: int| items[k]@)
}

/// The bytes of each value of a record.
pub open spec fn values_of(values: Seq<Option<Vec<u8>>>) -> Seq<Option<Seq<u8>>> {
    Seq::new(
        values.len(),
        |i: int|
            match values[i] {
                Some(value) => Some(value@),
                None => None,
            },
    )
}

/// The bytes of each value of a record that was read.
pub open spec fn bytes_of(values: Seq<Vec<u8>>) -> Seq<Seq<u8>> {
    Seq::new(values.len(), |i: int| values[i]@)
}

/// One column of a table.
pub struct TableField {
    name: String,
    config: FieldConfig,
    ring: LowLatencyMpmcRing<Vec<u8>>,
}

/// A table of byte-valued columns, each with a queue of its own. A record
/// is written to all the columns it has values for, or to none.
pub struct Table {
    name: String,
    fields: Vec<TableField>,
    record_count: usize,
}

impl View for Table {
    type V = TableState;

    closed spec fn view(&self) -> TableState {
        TableState {
            columns: Seq::new(self.fields@.len(), |i: int| contents(self.fields@[i].ring@.items)),
            capacities: Seq::new(self.fields@.len(), |i: int| self.fields@[i].ring@.capacity),
            record_count: self.record_count as nat,
        }
    }
}

impl Table {
    /// Every column's queue is sound, and the count of records is within the
    /// table's capacity.
    pub closed spec fn wf(&self) -> bool {
        &&& forall|i: int| 0 <= i < self.fields@.len() ==> (#[trigger] self.fields@[i]).ring.wf()
        &&& forall|i: int|
            0 <= i < self.fields@.len() ==> (#[trigger] self.fields@[i]).ring@.capacity
                <= MAX_CAPACITY
        &&& self.record_count <= MAX_CAPACITY
    }

    /// The names of the columns, in order.
    pub closed spec fn column_names(&self) -> Seq<Seq<char>> {
        Seq::new(self.fields@.len(), |i: int| self.fields@[i].name@)
    }

    /// An empty table called `name` with one column per field of `config`, in
    /// that order. A field that asks for a queue that cannot be built is
    /// refused.
    pub fn new(name: String, config: TableConfig) -> (r: Result<Self, TableError>)
        ensures
            r.is_ok() <==> config.valid(),
            r matches Ok(table) ==> {
                &&& table.wf()
                &&& table@.record_count == 0
                &&& table@.columns.len() == config.fields@.len()
                &&& table.column_names().len() == config.fields@.len()
                &&& forall|i: int|
                    0 <= i < config.fields@.len() ==> {
                        &&& (#[trigger] table@.columns[i]).len() == 0
                        &&& table@.capacities[i] == config.fields@[i].1.ring_capacity
                        &&& table.column_names()[i] == config.fields@[i].0@
                    }
            },
    {
        if !config.is_valid() {
            return Err(TableError::InvalidField);
        }
        let mut fields: Vec<TableField> = Vec::new();
        let mut i: usize = 0;
        while i < config.fields.len()
            invariant
                config.valid(),
                i <= config.fields@.len(),
                fields@.len() == i,
                forall|j: int|
                    0 <= j < i ==> {
                        &&& (#[trigger] fields@[j]).ring.wf()
                        &&& fields@[j].ring@.items.len() == 0
                        &&& fields@[j].ring@.capacity == config.fields@[j].1.ring_capacity
                        &&& fields@[j].name@ == config.fields@[j].0@
                    },
            decreases config.fields@.len() - i,
        {
            let field_config = config.fields[i].1;
            proof {
                assert(config.fields@[i as int].1.valid());
            }
            let field_name = config.fields[i].0.clone();
            fields.push(
                TableField {
                    name: field_name,
                    config: field_config,
                    ring: LowLatencyMpmcRing::new(field_config.ring_capacity),
                },
            );
            i = i + 1;
        }
        let table = Table { name, fields, record_count: 0 };
        proof {
            assert forall|i: int| 0 <= i < config.fields@.len() implies {
                &&& (#[trigger] table@.columns[i]).len() == 0
                &&& table@.capacities[i] == config.fields@[i].1.ring_capacity
                &&& table.column_names()[i] == config.fields@[i].0@
            } by {
                assert(table.fields@[i].ring.wf());
                assert(config.fields@[i].1.valid());
            }
            assert forall|i: int| 0 <= i < table.fields@.len() implies (
            #[trigger] table.fields@[i]).ring@.capacity <= MAX_CAPACITY by {
                assert(table.fields@[i].ring.wf());
                assert(config.fields@[i].1.valid());
            }
        }
        Ok(table)
    }

    /// The number of columns.
    pub fn num_fields(&self) -> (n: usize)
        ensures
            n == self@.columns.len(),
    {
        self.fields.len()
    }

    /// The column called `name`, if there is one; the first, if there are
    /// several.
    pub fn field_index(&self, name: &String) -> (index: Option<usize>)
        ensures
            match index {
                Some(i) => i < self.column_names().len() && self.column_names()[i as int]
                    == name@ && forall|j: int| 0 <= j < i ==> self.column_names()[j] != name@,
                None => forall|j: int|
                    0 <= j < self.column_names().len() ==> self.column_names()[j] != name@,
            },
    {
        let mut i: usize = 0;
        while i < self.fields.len()
            invariant
                i <= self.fields@.len(),
                forall|j: int| 0 <= j < i ==> self.column_names()[j] != name@,
            decreases self.fields@.len() - i,
        {
            if self.fields[i].name.eq(name) {
                return Some(i);
            }
            i = i + 1;
        }
        None
    }

    /// The most records the table takes.
    pub fn capacity(&self) -> (n: usize)
        requires
            self.wf(),
        ensures
            n == self@.capacity(),
    {
        if self.fields.len() == 0 {
            0
        } else {
            self.fields[0].ring.capacity()
        }
    }

    /// The number of records written and not yet read.
    pub fn record_count(&self) -> (n: usize)
        ensures
            n == self@.record_count,
    {
        self.record_count
    }

    fn accepts(&self, values: &[Option<Vec<u8>>]) -> (ok: bool)
        requires
            self.wf(),
        ensures
            ok == self@.accepts(values_of(values@)),
    {
        if self.record_count >= self.capacity() {
            return false;
        }
        if values.len() != self.fields.len() {
            return false;
        }
        let mut i: usize = 0;
        while i < self.fields.len()
            invariant
                self.wf(),
                values@.len() == self.fields@.len(),
                i <= self.fields@.len(),
                forall|j: int|
                    0 <= j < i && (#[trigger] values_of(values@)[j]).is_some()
                        ==> self@.columns[j].len() < self@.capacities[j],
            decreases self.fields@.len() - i,
        {
            if values[i].is_some() && self.fields[i].ring.is_full() {
                proof {
                    assert(values_of(values@)[i as int].is_some());
                }
                return false;
            }
            i = i + 1;
        }
        true
    }

    /// Writes a record whose value for column `i` is `values[i]`, where it
    /// has one. Either every value is queued and the answer is `true`, or
    /// nothing changes and the answer is `false`.
    pub fn write_record(&mut self, values: &[Option<Vec<u8>>]) -> (written: bool)
        requires
            old(self).wf(),
        ensures
            final(self).wf(),
            final(self).column_names() == old(self).column_names(),
            written == old(self)@.accepts(values_of(values@)),
            final(self)@ == old(self)@.after_write(values_of(values@)),
    {
        if !self.accepts(values) {
            return false;
        }
        let ghost wanted = values_of(values@);
        let n = self.fields.len();
        let mut i: usize = 0;
        while i < n
            invariant
                n == self.fields@.len(),
                n == old(self).fields@.len(),
                values@.len() == n,
                wanted == values_of(values@),
                i <= n,
                old(self).wf(),
                old(self)@.accepts(wanted),
                self.record_count == old(self).record_count,
                forall|j: int| 0 <= j < n ==> (#[trigger] self.fields@[j]).ring.wf(),
                forall|j: int|
                    0 <= j < n ==> (#[trigger] self.fields@[j]).name == old(self).fields@[j].name
                        && self.fields@[j].ring@.capacity == old(self).fields@[j].ring@.capacity,
                forall|j: int|
                    0 <= j < i ==> contents((#[trigger] self.fields@[j]).ring@.items) == (match wanted[j] {
                        Some(value) => old(self)@.columns[j].push(value),
                        None => old(self)@.columns[j],
                    }),
                forall|j: int|
                    i <= j < n ==> (#[trigger] self.fields@[j]).ring@ == old(self).fields@[j].ring@,
            decreases n - i,
        {
            let ghost before = self.fields@;
            match &values[i] {
                Some(value) => {
                    let copy = slice_to_vec(value.as_slice());
                    proof {
                        assert(wanted[i as int] == Some(value@));
                        assert(old(self)@.columns[i as int].len() < old(self)@.capacities[i as int]);
                        assert(before[i as int].ring@ == old(self).fields@[i as int].ring@);
                    }
                    let queued = self.fields[i].ring.try_enqueue(copy);
                    proof {
                        assert(queued);
                        assert(contents(self.fields@[i as int].ring@.items) =~= old(
                            self,
                        )@.columns[i as int].push(value@));
                    }
                },
                None => {
                    proof {
                        assert(wanted[i as int].is_none());
                    }
                },
            }
            proof {
                assert forall|j: int| 0 <= j < n && j != i implies #[trigger] self.fields@[j]
                    == before[j] by {}
            }
            i = i + 1;
        }
        self.record_count = self.record_count + 1;
        proof {
            assert(self@.columns =~= old(self)@.after_write(wanted).columns);
            assert(self@.capacities =~= old(self)@.capacities);
            assert(self.column_names() =~= old(self).column_names());
        }
        true
    }

    fn readable(&self) -> (ok: bool)
        requires
            self.wf(),
        ensures
            ok == self@.readable(),
    {
        if self.record_count == 0 {
            return false;
        }
        let mut i: usize = 0;
        while i < self.fields.len()
            invariant
                self.wf(),
                i <= self.fields@.len(),
                forall|j: int| 0 <= j < i ==> (#[trigger] self@.columns[j]).len() > 0,
            decreases self.fields@.len() - i,
        {
            if self.fields[i].ring.is_empty() {
                proof {
                    assert(self@.columns[i as int].len() == 0);
                }
                return false;
            }
            i = i + 1;
        }
        true
    }

    /// Reads the oldest record: the oldest value of every column. Either
    /// every column gives one, or nothing changes and the answer is `None`.
    pub fn read_one_record(&mut self) -> (record: Option<Vec<Vec<u8>>>)
        requires
            old(self).wf(),
        ensures
            final(self).wf(),
            final(self).column_names() == old(self).column_names(),
            (match record {
                Some(values) => Some(bytes_of(values@)),
                None => None,
            }) == old(self)@.read_result(),
            final(self)@ == old(self)@.after_read(),
    {
        if !self.readable() {
            return None;
        }
        let n = self.fields.len();
        let mut out: Vec<Vec<u8>> = Vec::with_capacity(n);
        let mut i: usize = 0;
        while i < n
            invariant
                n == self.fields@.len(),
                n == old(self).fields@.len(),
                i <= n,
                out@.len() == i,
                old(self).wf(),
                old(self)@.readable(),
                self.record_count == old(self).record_count,
                forall|j: int| 0 <= j < n ==> (#[trigger] self.fields@[j]).ring.wf(),
                forall|j: int|
                    0 <= j < n ==> (#[trigger] self.fields@[j]).name == old(self).fields@[j].name
                        && self.fields@[j].ring@.capacity == old(self).fields@[j].ring@.capacity,
                forall|j: int|
                    0 <= j < i ==> contents((#[trigger] self.fields@[j]).ring@.items) == old(
                        self,
                    )@.columns[j].subrange(1, old(self)@.columns[j].len() as int),
                forall|j: int| 0 <= j < i ==> (#[trigger] out@[j])@ == old(self)@.columns[j][0],
                forall|j: int|
                    i <= j < n ==> (#[trigger] self.fields@[j]).ring@ == old(self).fields@[j].ring@,
            decreases n - i,
        {
            let ghost before = self.fields@;
            proof {
                assert(old(self)@.columns[i as int].len() > 0);
                assert(before[i as int].ring@ == old(self).fields@[i as int].ring@);
            }
            let taken = self.fields[i].ring.try_dequeue();
            let value = match taken {
                Some(value) => value,
                None => Vec::new(),
            };
            proof {
                assert(taken.is_some());
                assert(contents(self.fields@[i as int].ring@.items) =~= old(
                    self,
                )@.columns[i as int].subrange(1, old(self)@.columns[i as int].len() as int));
                assert forall|j: int| 0 <= j < n && j != i implies #[trigger] self.fields@[j]
                    == before[j] by {}
            }
            out.push(value);
            i = i + 1;
        }
        self.record_count = self.record_count - 1;
        proof {
            assert(self@.columns =~= old(self)@.after_read().columns);
            assert(self@.capacities =~= old(self)@.capacities);
            assert(self.column_names() =~= old(self).column_names());
            assert(bytes_of(out@) =~= old(self)@.read_result().unwrap());
        }
        Some(out)
    }
}

} // verus!
