use crate::memory::ring_buffer::{slot_at, MAX_CAPACITY};
use vstd::prelude::*;

verus! {

/// Whether `n` is a power of two.
pub open spec fn is_power_of_two(n: u64) -> bool {
    n > 0 && n & ((n - 1) as u64) == 0
}

/// The distance from `from` up to `to` on the 64-bit circle.
pub open spec fn distance(to: u64, from: u64) -> nat {
    if to >= from {
        (to - from) as nat
    } else {
        (to - from + u64::MAX + 1) as nat
    }
}

/// The ticket `by` steps past `index`, starting again at zero past the top.
pub open spec fn advance(index: u64, by: int) -> u64 {
    if index + by > u64::MAX {
        (index + by - u64::MAX - 1) as u64
    } else {
        (index + by) as u64
    }
}

proof fn lemma_mask_keeps_below(index: u64, mask: u64)
    by (bit_vector)
    ensures
        index & mask <= mask,
{
}

proof fn lemma_mask_follows_step(index: u64, next: u64, capacity: u64, mask: u64)
    by (bit_vector)
    requires
        capacity > 0,
        capacity & mask == 0,
        mask + 1 == capacity,
        index + 1 == next || (next == 0 && index == 0xffff_ffff_ffff_ffff),
    ensures
        next & mask == (if index & mask == mask {
            0u64
        } else {
            ((index & mask) + 1) as u64
        }),
{
}

/// A bounded queue as a mathematical value.
#[verifier::ext_equal]
pub struct QueueState<T> {
    /// The queued items, oldest first.
    pub items: Seq<T>,
    /// The most items the queue holds.
    pub capacity: nat,
}

impl<T> QueueState<T> {
    /// An empty queue of `capacity` places.
    pub open spec fn fresh(capacity: nat) -> Self {
        QueueState { items: Seq::empty(), capacity }
    }

    pub open spec fn is_empty(self) -> bool {
        self.items.len() == 0
    }

    pub open spec fn is_full(self) -> bool {
        self.items.len() >= self.capacity
    }

    /// The queue after `item` was offered: at the back if there was room.
    pub open spec fn after_enqueue(self, item: T) -> Self {
        if self.is_full() {
            self
        } else {
            QueueState { items: self.items.push(item), ..self }
        }
    }

    /// What a dequeue answers: the oldest item, if there is one.
    pub open spec fn dequeue_result(self) -> Option<T> {
        if self.is_empty() {
            None
        } else {
            Some(self.items[0])
        }
    }

    /// The queue after a dequeue.
    pub open spec fn after_dequeue(self) -> Self {
        if self.is_empty() {
            self
        } else {
            QueueState { items: self.items.subrange(1, self.items.len() as int), ..self }
        }
    }
}

/// One place of the queue. Its sequence number says whose turn it is: equal
/// to a producer's ticket, the place is free for that producer; one above a
/// consumer's ticket, it holds the item for that consumer.
pub struct Slot<T> {
    sequence: u64,
    value: Option<T>,
}

/// A bounded queue whose places carry sequence numbers, so that a producer
/// and a consumer each learn from the place alone whether it is theirs.
pub struct LowLatencyMpmcRing<T> {
    buffer: Vec<Slot<T>>,
    capacity: usize,
    mask: u64,
    producer_index: u64,
    consumer_index: u64,
}

impl<T> View for LowLatencyMpmcRing<T> {
    type V = QueueState<T>;

    closed spec fn view(&self) -> QueueState<T> {
        QueueState {
            items: Seq::new(
                distance(self.producer_index, self.consumer_index),
                |i: int| self.buffer@[self.place(i)].value.unwrap(),
            ),
            capacity: self.capacity as nat,
        }
    }
}

impl<T> LowLatencyMpmcRing<T> {
    /// The place `offset` steps past the one that the next consumer takes.
    spec fn place(&self, offset: int) -> int {
        slot_at((self.consumer_index & self.mask) as int, self.capacity as int, offset)
    }

    /// Every place carries the sequence number of its turn: the places from
    /// the consumer's up to the producer's hold items, the others are free.
    pub closed spec fn wf(&self) -> bool {
        &&& is_power_of_two(self.capacity as u64)
        &&& 2 <= self.capacity <= MAX_CAPACITY
        &&& self.mask == self.capacity - 1
        &&& self.buffer@.len() == self.capacity
        &&& distance(self.producer_index, self.consumer_index) <= self.capacity
        &&& (self.producer_index & self.mask) == self.place(
            distance(self.producer_index, self.consumer_index) as int,
        )
        &&& forall|i: int|
            0 <= i < distance(self.producer_index, self.consumer_index) ==> (
            #[trigger] self.buffer@[self.place(i)]).value.is_some() && self.buffer@[self.place(
                i,
            )].sequence == advance(self.consumer_index, i + 1)
        &&& forall|i: int|
            distance(self.producer_index, self.consumer_index) <= i < self.capacity ==> (
            #[trigger] self.buffer@[self.place(i)]).value.is_none() && self.buffer@[self.place(
                i,
            )].sequence == advance(self.consumer_index, i)
    }

    /// An empty queue of `capacity` places.
    pub fn new(capacity: usize) -> (ring: Self)
        requires
            is_power_of_two(capacity as u64),
            2 <= capacity <= MAX_CAPACITY,
        ensures
            ring.wf(),
            ring@ == QueueState::<T>::fresh(capacity as nat),
    {
        let mut buffer: Vec<Slot<T>> = Vec::with_capacity(capacity);
        let mut i: usize = 0;
        while i < capacity
            invariant
                i <= capacity,
                buffer@.len() == i,
                forall|j: int|
                    0 <= j < i ==> (#[trigger] buffer@[j]).sequence == j && buffer@[j].value.is_none(),
            decreases capacity - i,
        {
            buffer.push(Slot { sequence: i as u64, value: None });
            i = i + 1;
        }
        let ring = LowLatencyMpmcRing {
            buffer,
            capacity,
            mask: (capacity - 1) as u64,
            producer_index: 0,
            consumer_index: 0,
        };
        proof {
            let mask = ring.mask;
            assert(0u64 & mask == 0) by (bit_vector);
            assert forall|i: int| 0 <= i < capacity implies ring.place(i) == i by {}
            assert(ring@.items =~= Seq::<T>::empty());
        }
        ring
    }

    /// An empty queue of `capacity` places, or `None` where `capacity` is not
    /// a power of two between 2 and `MAX_CAPACITY`.
    pub fn try_new(capacity: usize) -> (ring: Option<Self>)
        ensures
            ring.is_some() <==> is_power_of_two(capacity as u64) && 2 <= capacity <= MAX_CAPACITY,
            ring matches Some(r) ==> r.wf() && r@ == QueueState::<T>::fresh(capacity as nat),
    {
        if capacity < 2 || capacity > MAX_CAPACITY {
            return None;
        }
        let wide = capacity as u64;
        if wide & (wide - 1) != 0 {
            return None;
        }
        Some(Self::new(capacity))
    }

    /// Puts `item` at the back of the queue. Answers `false`, and drops the
    /// item, when the queue is full.
    pub fn try_enqueue(&mut self, item: T) -> (queued: bool)
        requires
            old(self).wf(),
        ensures
            final(self).wf(),
            queued == !old(self)@.is_full(),
            final(self)@ == old(self)@.after_enqueue(item),
    {
        let ticket = self.producer_index;
        let ghost held = distance(self.producer_index, self.consumer_index) as int;
        let ghost start = self.consumer_index;
        proof {
            lemma_mask_keeps_below(ticket, self.mask);
            lemma_mask_keeps_below(self.consumer_index, self.mask);
            lemma_mask_follows_step(ticket, advance(ticket, 1), self.capacity as u64, self.mask);
            assert(ticket == advance(start, held));
            if held < self.capacity {
                assert(self.buffer@[self.place(held)].sequence == ticket);
            } else {
                assert(self.place(held) == self.place(0));
                assert(self.buffer@[self.place(0)].sequence == advance(start, 1));
            }
        }
        let idx = (ticket & self.mask) as usize;
        if self.buffer[idx].sequence != ticket {
            return false;
        }
        self.buffer.set(idx, Slot { sequence: ticket.wrapping_add(1), value: Some(item) });
        self.producer_index = ticket.wrapping_add(1);
        proof {
            assert(distance(self.producer_index, self.consumer_index) == held + 1);
            assert forall|i: int| 0 <= i < held + 1 implies (#[trigger] self.buffer@[self.place(
                i,
            )]).value.is_some() && self.buffer@[self.place(i)].sequence == advance(
                self.consumer_index,
                i + 1,
            ) by {
                assert(self.place(i) == old(self).place(i));
                if i < held {
                    assert(old(self).buffer@[old(self).place(i)].value.is_some());
                }
            }
            assert forall|i: int| held + 1 <= i < self.capacity implies (
            #[trigger] self.buffer@[self.place(i)]).value.is_none() && self.buffer@[self.place(
                i,
            )].sequence == advance(self.consumer_index, i) by {
                assert(self.place(i) == old(self).place(i));
                assert(old(self).buffer@[old(self).place(i)].value.is_none());
            }
            assert forall|i: int| 0 <= i < held + 1 implies #[trigger] self@.items[i] == old(
                self,
            )@.items.push(item)[i] by {
                assert(self.place(i) == old(self).place(i));
            }
            assert(self@.items =~= old(self)@.items.push(item));
        }
        true
    }

    /// Takes the oldest item out of the queue, or answers `None` when the
    /// queue is empty.
    pub fn try_dequeue(&mut self) -> (item: Option<T>)
        requires
            old(self).wf(),
        ensures
            final(self).wf(),
            item == old(self)@.dequeue_result(),
            final(self)@ == old(self)@.after_dequeue(),
    {
        let ticket = self.consumer_index;
        let ghost idx = ticket & self.mask;
        let ghost held = distance(self.producer_index, self.consumer_index) as int;
        proof {
            lemma_mask_keeps_below(ticket, self.mask);
            lemma_mask_follows_step(ticket, advance(ticket, 1), self.capacity as u64, self.mask);
            assert(self.place(0) == idx);
            if held > 0 {
                assert(self.buffer@[self.place(0)].sequence == advance(ticket, 1));
            } else {
                assert(self.buffer@[self.place(0)].sequence == advance(ticket, 0));
            }
        }
        let idx = (ticket & self.mask) as usize;
        if self.buffer[idx].sequence != ticket.wrapping_add(1) {
            return None;
        }
        let mut taken = Slot { sequence: ticket.wrapping_add(self.capacity as u64), value: None };
        std::mem::swap(&mut self.buffer[idx], &mut taken);
        self.consumer_index = ticket.wrapping_add(1);
        proof {
            assert(distance(self.producer_index, self.consumer_index) == held - 1);
            assert forall|i: int| 0 <= i < self.capacity - 1 implies self.place(i) == old(
                self,
            ).place(i + 1) by {}
            assert(self.place(self.capacity - 1) == old(self).place(0));
            assert forall|i: int| 0 <= i < held - 1 implies (#[trigger] self.buffer@[self.place(
                i,
            )]).value.is_some() && self.buffer@[self.place(i)].sequence == advance(
                self.consumer_index,
                i + 1,
            ) by {
                assert(self.place(i) == old(self).place(i + 1));
                assert(old(self).buffer@[old(self).place(i + 1)].value.is_some());
            }
            assert forall|i: int| held - 1 <= i < self.capacity implies (
            #[trigger] self.buffer@[self.place(i)]).value.is_none() && self.buffer@[self.place(
                i,
            )].sequence == advance(self.consumer_index, i) by {
                if i < self.capacity - 1 {
                    assert(self.place(i) == old(self).place(i + 1));
                    assert(old(self).buffer@[old(self).place(i + 1)].value.is_none());
                } else {
                    assert(self.place(i) == old(self).place(0));
                }
            }
            assert forall|i: int| 0 <= i < held - 1 implies #[trigger] self@.items[i] == old(
                self,
            )@.items.subrange(1, held)[i] by {
                assert(self.place(i) == old(self).place(i + 1));
            }
            assert(self@.items =~= old(self)@.items.subrange(1, held));
        }
        taken.value
    }

    /// Whether the queue holds no item.
    pub fn is_empty(&self) -> (empty: bool)
        requires
            self.wf(),
        ensures
            empty == self@.is_empty(),
    {
        self.producer_index == self.consumer_index
    }

    /// Whether the queue holds as many items as it has places.
    pub fn is_full(&self) -> (full: bool)
        requires
            self.wf(),
        ensures
            full == self@.is_full(),
    {
        self.producer_index.wrapping_sub(self.consumer_index) >= self.capacity as u64
    }

    /// The number of places.
    pub fn capacity(&self) -> (n: usize)
        ensures
            n == self@.capacity,
    {
        self.capacity
    }
}

} // verus!
