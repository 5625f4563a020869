use std::collections::HashMap;
use vstd::prelude::*;

verus! {

broadcast use vstd::std_specs::hash::group_hash_axioms;

/// A directory as a mathematical value: the registered tokens in the order
/// of their slots, and the number of slots there are.
#[verifier::ext_equal]
pub struct DirectoryState {
    /// The token of slot `i` is `tokens[i]`.
    pub tokens: Seq<u64>,
    /// The most tokens the directory takes.
    pub capacity: nat,
}

impl DirectoryState {
    /// An empty directory of `capacity` slots.
    pub open spec fn fresh(capacity: nat) -> Self {
        DirectoryState { tokens: Seq::empty(), capacity }
    }

    /// What holds of every directory: no token has two slots, no more slots
    /// are taken than there are, and a slot's number fits a machine word.
    pub open spec fn inv(self) -> bool {
        &&& self.tokens.no_duplicates()
        &&& self.tokens.len() <= self.capacity
        &&& self.capacity <= usize::MAX
    }

    /// Whether `slot` is the slot of `token`.
    pub open spec fn holds(self, token: u64, slot: int) -> bool {
        0 <= slot < self.tokens.len() && self.tokens[slot] == token
    }

    /// The slot of `token`, if it is registered.
    pub open spec fn slot_of(self, token: u64) -> Option<usize> {
        if self.tokens.contains(token) {
            Some(self.tokens.index_of(token) as usize)
        } else {
            None
        }
    }

    /// What registering `token` answers: its slot if it has one, else the
    /// next free slot, else nothing.
    pub open spec fn register_result(self, token: u64) -> Option<usize> {
        if self.tokens.contains(token) {
            self.slot_of(token)
        } else if self.tokens.len() < self.capacity {
            Some(self.tokens.len() as usize)
        } else {
            None
        }
    }

    /// The directory after `token` was registered.
    pub open spec fn after_register(self, token: u64) -> Self {
        if !self.tokens.contains(token) && self.tokens.len() < self.capacity {
            DirectoryState { tokens: self.tokens.push(token), ..self }
        } else {
            self
        }
    }

    /// The directory after `token` was registered `times` times over.
    pub open spec fn after_registers(self, token: u64, times: nat) -> Self
        decreases times,
    {
        if times == 0 {
            self
        } else {
            self.after_register(token).after_registers(token, (times - 1) as nat)
        }
    }
}

/// In a directory without duplicates the slot of a token is the one place
/// where it stands.
pub proof fn lemma_slot_is_unique(dir: DirectoryState, token: u64, slot: int)
    requires
        dir.inv(),
        dir.holds(token, slot),
    ensures
        dir.slot_of(token) == Some(slot as usize),
        dir.tokens.contains(token),
{
    assert(dir.tokens.contains(token));
    let found = dir.tokens.index_of(token);
    assert(dir.tokens[found] == token);
}

/// Registering keeps the invariant, never moves a token that has a slot, and
/// never takes a slot away.
pub proof fn lemma_register_is_monotone(dir: DirectoryState, token: u64, other: u64)
    requires
        dir.inv(),
    ensures
        dir.after_register(token).inv(),
        dir.after_register(token).capacity == dir.capacity,
        dir.tokens.is_prefix_of(dir.after_register(token).tokens),
        dir.slot_of(other).is_some() ==> dir.after_register(token).slot_of(other) == dir.slot_of(
            other,
        ),
{
    let after = dir.after_register(token);
    if after.tokens.len() != dir.tokens.len() {
        assert forall|i: int, j: int|
            0 <= i < after.tokens.len() && 0 <= j < after.tokens.len() && i != j implies after.tokens[i]
            != after.tokens[j] by {
            if i < dir.tokens.len() && j < dir.tokens.len() {
            } else if i < dir.tokens.len() {
                assert(dir.tokens.contains(dir.tokens[i]));
            } else {
                assert(dir.tokens.contains(dir.tokens[j]));
            }
        }
    }
    assert(dir.tokens =~= after.tokens.subrange(0, dir.tokens.len() as int));
    if dir.slot_of(other).is_some() {
        let slot = dir.tokens.index_of(other);
        assert(dir.holds(other, slot));
        assert(after.holds(other, slot));
        lemma_slot_is_unique(after, other, slot);
        lemma_slot_is_unique(dir, other, slot);
    }
}

/// Looking a token up right after registering it finds the slot that the
/// registration answered.
pub proof fn lemma_lookup_after_register(dir: DirectoryState, token: u64)
    requires
        dir.inv(),
    ensures
        dir.after_register(token).slot_of(token) == dir.register_result(token),
{
    let after = dir.after_register(token);
    lemma_register_is_monotone(dir, token, token);
    if dir.tokens.contains(token) {
    } else if dir.tokens.len() < dir.capacity {
        assert(after.holds(token, dir.tokens.len() as int));
        lemma_slot_is_unique(after, token, dir.tokens.len() as int);
    } else {
    }
}

/// Idempotence: registering a token again answers the same slot and changes
/// nothing, however often it is done.
pub proof fn lemma_register_is_idempotent(dir: DirectoryState, token: u64, times: nat)
    requires
        dir.inv(),
        times >= 1,
    ensures
        dir.after_registers(token, times) == dir.after_register(token),
        dir.after_registers(token, times).register_result(token) == dir.register_result(token),
        dir.after_registers(token, times).slot_of(token) == dir.register_result(token),
    decreases times,
{
    let once = dir.after_register(token);
    lemma_register_is_monotone(dir, token, token);
    lemma_lookup_after_register(dir, token);
    assert(once.after_register(token) == once) by {
        if !dir.tokens.contains(token) && dir.tokens.len() < dir.capacity {
            assert(once.holds(token, dir.tokens.len() as int));
            assert(once.tokens.contains(token));
        }
    }
    assert(once.register_result(token) == dir.register_result(token)) by {
        if !dir.tokens.contains(token) && dir.tokens.len() < dir.capacity {
            assert(once.holds(token, dir.tokens.len() as int));
            assert(once.tokens.contains(token));
        }
    }
    if times == 1 {
        assert(once.after_registers(token, 0) == once);
    } else {
        lemma_register_is_idempotent(once, token, (times - 1) as nat);
    }
}

/// The directory of instruments: each registered token has a dense slot,
/// given out in the order of registration and never taken back.
pub struct InstrumentIndex {
    index: Vec<u64>,
    token_map: HashMap<u64, usize>,
    count: usize,
    capacity: usize,
}

impl View for InstrumentIndex {
    type V = DirectoryState;

    closed spec fn view(&self) -> DirectoryState {
        DirectoryState {
            tokens: self.index@.subrange(0, self.count as int),
            capacity: self.capacity as nat,
        }
    }
}

impl InstrumentIndex {
    /// The array and the map agree: slot `i` holds token `t` exactly when the
    /// map sends `t` to `i`.
    pub closed spec fn wf(&self) -> bool {
        &&& self.index@.len() == self.capacity
        &&& self.count <= self.capacity
        &&& forall|i: int|
            0 <= i < self.count ==> self.token_map@.contains_key(#[trigger] self.index@[i])
                && self.token_map@[self.index@[i]] == i
        &&& forall|token: u64| #[trigger]
            self.token_map@.contains_key(token) ==> self.token_map@[token] < self.count
                && self.index@[self.token_map@[token] as int] == token
    }

    /// A well-formed directory satisfies the invariant of its model.
    pub proof fn lemma_wf_inv(&self)
        requires
            self.wf(),
        ensures
            self@.inv(),
    {
        assert forall|i: int, j: int|
            0 <= i < self@.tokens.len() && 0 <= j < self@.tokens.len() && i != j implies self@.tokens[i]
            != self@.tokens[j] by {
            assert(self.token_map@[self.index@[i]] == i);
            assert(self.token_map@[self.index@[j]] == j);
        }
    }

    /// An empty directory with room for `capacity` instruments.
    pub fn new(capacity: usize) -> (dir: InstrumentIndex)
        ensures
            dir.wf(),
            dir@ == DirectoryState::fresh(capacity as nat),
    {
        let mut index: Vec<u64> = Vec::new();
        let mut filled: usize = 0;
        while filled < capacity
            invariant
                filled <= capacity,
                index@.len() == filled,
            decreases capacity - filled,
        {
            index.push(0);
            filled = filled + 1;
        }
        let dir = InstrumentIndex { index, token_map: HashMap::new(), count: 0, capacity };
        proof {
            assert(dir@.tokens =~= Seq::<u64>::empty());
        }
        dir
    }

    /// Gives `token` a slot. A token that has one keeps it; a new token gets
    /// the next free slot; where none is free the answer is `None` and
    /// nothing changes.
    pub fn register_instrument(&mut self, token: u64) -> (slot: Option<usize>)
        requires
            old(self).wf(),
        ensures
            final(self).wf(),
            slot == old(self)@.register_result(token),
            final(self)@ == old(self)@.after_register(token),
            slot matches Some(i) ==> final(self)@.holds(token, i as int),
    {
        proof {
            self.lemma_wf_inv();
        }
        match self.token_map.get(&token) {
            Some(found) => {
                let found: usize = *found;
                proof {
                    assert(self@.holds(token, found as int));
                    lemma_slot_is_unique(self@, token, found as int);
                }
                return Some(found);
            },
            None => {},
        }
        proof {
            assert(!self@.tokens.contains(token)) by {
                if self@.tokens.contains(token) {
                    let i = self@.tokens.index_of(token);
                    assert(self.token_map@.contains_key(self.index@[i]));
                }
            }
        }
        if self.count >= self.capacity {
            return None;
        }
        let slot = self.count;
        self.token_map.insert(token, slot);
        self.index.set(slot, token);
        self.count = slot + 1;
        proof {
            assert forall|i: int| 0 <= i < self.count implies self.token_map@.contains_key(
                #[trigger] self.index@[i],
            ) && self.token_map@[self.index@[i]] == i by {
                if i < slot {
                    assert(self.index@[i] == old(self).index@[i]);
                    assert(old(self).token_map@.contains_key(old(self).index@[i]));
                }
            }
            assert forall|t: u64| #[trigger] self.token_map@.contains_key(t) implies self.token_map@[t]
                < self.count && self.index@[self.token_map@[t] as int] == t by {
                if t != token {
                    assert(old(self).token_map@.contains_key(t));
                }
            }
            assert(self@.tokens =~= old(self)@.tokens.push(token));
        }
        Some(slot)
    }

    /// The slot of `token`, or `None` where it is not registered. The array
    /// is searched first, then the map.
    pub fn get_buffer_index(&self, token: u64) -> (slot: Option<usize>)
        requires
            self.wf(),
        ensures
            slot == self@.slot_of(token),
            slot matches Some(i) ==> self@.holds(token, i as int),
    {
        proof {
            self.lemma_wf_inv();
        }
        let mut i: usize = 0;
        while i < self.count
            invariant
                self.wf(),
                self@.inv(),
                i <= self.count,
                forall|j: int| 0 <= j < i ==> self.index@[j] != token,
            decreases self.count - i,
        {
            if self.index[i] == token {
                proof {
                    assert(self@.holds(token, i as int));
                    lemma_slot_is_unique(self@, token, i as int);
                }
                return Some(i);
            }
            i = i + 1;
        }
        proof {
            assert(!self@.tokens.contains(token)) by {
                if self@.tokens.contains(token) {
                    let k = self@.tokens.index_of(token);
                    assert(self.index@[k] == token);
                }
            }
            assert(!self.token_map@.contains_key(token)) by {
                if self.token_map@.contains_key(token) {
                    assert(self.index@[self.token_map@[token] as int] == token);
                }
            }
        }
        match self.token_map.get(&token) {
            Some(found) => Some(*found),
            None => None,
        }
    }

    /// The token that was registered first, if any was.
    pub fn get_first_token(&self) -> (token: Option<u64>)
        requires
            self.wf(),
        ensures
            token == (if self@.tokens.len() > 0 {
                Some(self@.tokens[0])
            } else {
                None
            }),
    {
        if self.count > 0 {
            Some(self.index[0])
        } else {
            None
        }
    }

    /// Whether `token` is registered.
    pub fn contains(&self, token: u64) -> (found: bool)
        requires
            self.wf(),
        ensures
            found == self@.tokens.contains(token),
    {
        self.get_buffer_index(token).is_some()
    }

    /// The number of registered instruments.
    pub fn len(&self) -> (n: usize)
        requires
            self.wf(),
        ensures
            n == self@.tokens.len(),
            n <= self@.capacity,
    {
        self.count
    }

    /// The most instruments the directory takes.
    pub fn capacity(&self) -> (n: usize)
        ensures
            n == self@.capacity,
    {
        self.capacity
    }
}

} // verus!
