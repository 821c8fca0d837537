//! The producer side: the ring buffer itself, placed in the producer's RAM at
//! an address that the consumer knows.
use vstd::prelude::*;

use crate::layout::{
    FILL_BYTE, MAGIC_BYTE, MAX_CAPACITY, accepted_count, layout_bytes, lemma_next_index_mod,
    lemma_write_appends, pending, ring_distance, slot_after, written_slots,
};

verus! {

/// Relies on `core::sync::atomic::compiler_fence`, which only keeps the
/// compiler from moving memory accesses across it and returns nothing; it
/// panics when given `Ordering::Relaxed`.
pub assume_specification[ core::sync::atomic::compiler_fence ](order: core::sync::atomic::Ordering)
    requires
        !(order is Relaxed),
;

/// What a producer that waits for room does after a send.
#[derive(Debug, PartialEq, Eq)]
pub enum SpinAction {
    /// Look again; the argument counts the looks in a row at a full buffer.
    Continue(usize),
    /// Stop waiting.
    GiveUp,
}

/// Decides what a waiting producer does after a send that took `sent`
/// bytes, having found the buffer full `idle` times in a row before it: a
/// send that took something resets the count; one that took nothing adds one
/// to it, until `max_spins` looks in a row found no room.
pub fn next_spin(sent: usize, idle: usize, max_spins: usize) -> (r: SpinAction)
    requires
        idle <= max_spins,
    ensures
        sent > 0 ==> r == SpinAction::Continue(0),
        sent == 0 && idle < max_spins ==> r == SpinAction::Continue((idle + 1) as usize),
        sent == 0 && idle == max_spins ==> r == SpinAction::GiveUp,
{
    if sent > 0 {
        SpinAction::Continue(0)
    } else if idle < max_spins {
        SpinAction::Continue(idle + 1)
    } else {
        SpinAction::GiveUp
    }
}

/// The ring buffer that carries bytes from this producer to a consumer.
///
/// The producer index is written by this side only; the consumer index is
/// written by the consumer only, from outside, through a debug probe.
pub struct RB<const SIZE: usize> {
    /// Lets the consumer check that it found the structure.
    magic_marker: [u8; 3],
    /// Number of content slots.
    size: u8,
    /// Next slot the producer writes.
    producer: u8,
    /// Next slot the consumer reads; equal to `producer` when empty.
    consumer: u8,
    /// The slots.
    content: [u8; SIZE],
}

impl<const SIZE: usize> RB<SIZE> {
    /// The structure is well formed: marker in place, capacity recorded,
    /// producer index in range.
    pub open spec fn wf(&self) -> bool {
        &&& 1 <= SIZE <= MAX_CAPACITY
        &&& self.marker() == seq![MAGIC_BYTE, MAGIC_BYTE, MAGIC_BYTE]
        &&& self.size_byte() == SIZE
        &&& self.producer_index() < SIZE
        &&& self.slots().len() == SIZE
    }

    /// The magic marker.
    pub closed spec fn marker(&self) -> Seq<u8> {
        self.magic_marker@
    }

    /// The capacity byte.
    pub closed spec fn size_byte(&self) -> u8 {
        self.size
    }

    /// The producer index.
    pub closed spec fn producer_index(&self) -> u8 {
        self.producer
    }

    /// The consumer index as it stands in this structure.
    pub closed spec fn consumer_index(&self) -> u8 {
        self.consumer
    }

    /// The content slots.
    pub closed spec fn slots(&self) -> Seq<u8> {
        self.content@
    }

    /// `self` is `before` once `written` has been stored from the producer
    /// index on and the producer index has moved past it.
    pub open spec fn follows_write(&self, before: RB<SIZE>, written: Seq<u8>) -> bool {
        &&& self.producer_index() == slot_after(
            before.producer_index() as int,
            written.len() as int,
            SIZE as int,
        )
        &&& self.consumer_index() == before.consumer_index()
        &&& self.slots() == written_slots(before.slots(), before.producer_index() as int, written)
    }

    /// The bytes of this structure as the consumer sees them in memory.
    pub open spec fn bytes(&self) -> Seq<u8> {
        layout_bytes(SIZE as u8, self.producer_index(), self.consumer_index(), self.slots())
    }

    /// Returns an empty ring buffer of `SIZE` slots.
    pub fn new() -> (r: RB<SIZE>)
        requires
            1 <= SIZE <= MAX_CAPACITY,
        ensures
            r.wf(),
            r.producer_index() == 0,
            r.consumer_index() == 0,
            r.slots() == Seq::new(SIZE as nat, |i: int| FILL_BYTE),
    {
        let r = RB {
            magic_marker: [MAGIC_BYTE, MAGIC_BYTE, MAGIC_BYTE],
            size: SIZE as u8,
            producer: 0,
            consumer: 0,
            content: [FILL_BYTE; SIZE],
        };
        assert(r.content@ =~= Seq::new(SIZE as nat, |i: int| FILL_BYTE));
        r
    }

    /// The consumer index as it lies in memory, for a volatile load: the
    /// consumer writes it from outside, without this program's knowledge.
    pub fn consumer_index_slot(&self) -> (r: &u8)
        ensures
            *r == self.consumer_index(),
    {
        &self.consumer
    }

    /// The bytes of this structure, in the layout the consumer reads.
    pub fn to_bytes(&self) -> (r: Vec<u8>)
        requires
            self.wf(),
        ensures
            r@ == self.bytes(),
    {
        let mut r: Vec<u8> = Vec::new();
        r.push(self.magic_marker[0]);
        r.push(self.magic_marker[1]);
        r.push(self.magic_marker[2]);
        r.push(self.size);
        r.push(self.producer);
        r.push(self.consumer);
        let mut i: usize = 0;
        while i < SIZE
            invariant
                self.wf(),
                0 <= i <= SIZE,
                r@ == layout_bytes(self.size, self.producer, self.consumer, self.content@.take(i as int)),
            decreases SIZE - i,
        {
            r.push(self.content[i]);
            assert(self.content@.take(i + 1) =~= self.content@.take(i as int).push(self.content@[i as int]));
            assert(r@ =~= layout_bytes(self.size, self.producer, self.consumer, self.content@.take(i + 1)));
            i = i + 1;
        }
        assert(self.content@.take(SIZE as int) =~= self.content@);
        r
    }

    /// Writes as much of `data` as fits, given that the consumer index was
    /// last seen as `consumer_index`, and returns how many bytes went in.
    ///
    /// Bytes go in order, one per slot, starting at the producer index; each
    /// one is stored before the producer index moves past it. One slot always
    /// stays unused, so a full buffer takes nothing: no byte that waits for the
    /// consumer is ever overwritten. A consumer index outside the ring (a
    /// corrupted structure) also takes nothing.
    ///
    /// The consumer index is an argument because another party writes it,
    /// outside this program's view; the caller reads it with a volatile load
    /// (see [`RB::consumer_index_slot`]) and calls again until all bytes are in.
    pub fn send_bytes(&mut self, data: &[u8], consumer_index: u8) -> (sent: usize)
        requires
            old(self).wf(),
        ensures
            final(self).wf(),
            sent == accepted_count(
                old(self).producer_index() as int,
                consumer_index as int,
                SIZE as int,
                data@.len() as int,
            ),
            final(self).follows_write(*old(self), data@.take(sent as int)),
            consumer_index < SIZE ==> pending(
                final(self).slots(),
                consumer_index as int,
                final(self).producer_index() as int,
            ) == pending(old(self).slots(), consumer_index as int, old(self).producer_index() as int)
                + data@.take(sent as int),
    {
        let ghost c = SIZE as int;
        let ghost p0 = self.producer as int;
        let ghost content0 = self.content@;
        if consumer_index >= self.size {
            assert(data@.take(0) =~= Seq::empty());
            assert(written_slots(content0, p0, Seq::empty()) =~= content0);
            return 0;
        }
        let ghost l = ring_distance(consumer_index as int, p0, c);
        let mut i: usize = 0;
        while i < data.len() && (self.producer + 1) % self.size != consumer_index
            invariant
                self.wf(),
                self.consumer == old(self).consumer,
                c == SIZE,
                p0 == old(self).producer,
                0 <= p0 < c,
                content0 == old(self).content@,
                consumer_index < SIZE,
                l == ring_distance(consumer_index as int, p0, c),
                0 <= i <= data@.len(),
                l + i <= c - 1,
                self.producer == slot_after(p0, i as int, c),
                ring_distance(consumer_index as int, self.producer as int, c) == l + i,
                self.content@ == written_slots(content0, p0, data@.take(i as int)),
            decreases data@.len() - i,
        {
            proof {
                lemma_next_index_mod(self.producer as int, c);
            }
            let p = self.producer;
            let next = (p + 1) % self.size;
            let ghost before = self.content@;
            self.content[p as usize] = data[i];
            // The byte must be in its slot before the index that publishes it moves.
            core::sync::atomic::compiler_fence(core::sync::atomic::Ordering::Release);
            self.producer = next;
            assert forall|j: int| 0 <= j < c implies #[trigger] self.content@[j] == written_slots(
                content0,
                p0,
                data@.take(i + 1),
            )[j] by {
                assert(before[j] == written_slots(content0, p0, data@.take(i as int))[j]);
            }
            assert(self.content@ =~= written_slots(content0, p0, data@.take(i + 1)));
            i = i + 1;
        }
        proof {
            lemma_next_index_mod(self.producer as int, c);
            lemma_write_appends(content0, consumer_index as int, p0, data@.take(i as int));
        }
        i
    }
}

} // verus!
