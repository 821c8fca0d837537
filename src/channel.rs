//! Properties of the channel as a whole: a producer's ring buffer, laid out
//! in memory, read and acknowledged by a consumer.
//!
//! The functions of [`crate::producer`] and [`crate::consumer`] state what
//! they do over the model of [`crate::layout`]; the lemmas here put the two
//! sides together.
use vstd::prelude::*;

use crate::layout::{
    OFFSET_CONSUMER, OFFSET_CONTENT, OFFSET_PRODUCER, OFFSET_SIZE, accepted_count, acknowledged,
    consumer_at, indices_in_range, lemma_write_appends, magic_at, pending, pending_at, producer_at,
    ring_distance, slot_after, written_slots,
};
use crate::producer::RB;

verus! {

/// Memory `m` holds the bytes of `rb` at address `base`.
pub open spec fn holds_at<const SIZE: usize>(m: Seq<u8>, base: int, rb: RB<SIZE>) -> bool {
    &&& 0 <= base
    &&& base + OFFSET_CONTENT + SIZE <= m.len()
    &&& m.subrange(base, base + OFFSET_CONTENT + SIZE) == rb.bytes()
}

/// The consumer finds in memory what the producer holds: the magic marker,
/// the capacity, and, as long as the consumer index lies in the ring, the
/// same waiting bytes in the same order.
pub proof fn lemma_memory_shows_ring<const SIZE: usize>(rb: RB<SIZE>, m: Seq<u8>, base: int)
    requires
        rb.wf(),
        holds_at(m, base, rb),
    ensures
        magic_at(m, base),
        m[base + OFFSET_SIZE] == SIZE,
        producer_at(m, base) == rb.producer_index(),
        consumer_at(m, base) == rb.consumer_index(),
        rb.consumer_index() < SIZE ==> indices_in_range(m, base, SIZE as int),
        rb.consumer_index() < SIZE ==> pending_at(m, base, SIZE as int) == pending(
            rb.slots(),
            rb.consumer_index() as int,
            rb.producer_index() as int,
        ),
{
    let c = SIZE as int;
    let img = rb.bytes();
    assert forall|i: int| 0 <= i < OFFSET_CONTENT + c implies #[trigger] m[base + i] == img[i] by {
        assert(m.subrange(base, base + OFFSET_CONTENT + c)[i] == m[base + i]);
    }
    assert(m[base] == img[0]);
    assert(m[base + 1] == img[1]);
    assert(m[base + 2] == img[2]);
    assert(m[base + OFFSET_SIZE] == img[3]);
    assert(m[base + OFFSET_PRODUCER] == img[4]);
    assert(m[base + OFFSET_CONSUMER] == img[5]);
    let cons = rb.consumer_index() as int;
    let prod = rb.producer_index() as int;
    if cons < c {
        assert forall|k: int| 0 <= k < ring_distance(cons, prod, c) implies #[trigger] pending_at(
            m,
            base,
            c,
        )[k] == pending(rb.slots(), cons, prod)[k] by {
            let s = slot_after(cons, k, c);
            assert(m[base + OFFSET_CONTENT + s] == img[OFFSET_CONTENT + s]);
        }
        assert(pending_at(m, base, c) =~= pending(rb.slots(), cons, prod));
    }
}

/// A send of fewer bytes than the capacity into a fresh ring buffer takes
/// them all, and a drain of the memory that holds the ring buffer then
/// returns exactly those bytes, in order, for every capacity.
pub proof fn lemma_send_then_drain<const SIZE: usize>(
    fresh: RB<SIZE>,
    sent: RB<SIZE>,
    data: Seq<u8>,
    n: int,
    m: Seq<u8>,
    base: int,
)
    requires
        fresh.wf(),
        fresh.producer_index() == 0,
        fresh.consumer_index() == 0,
        data.len() < SIZE,
        n == accepted_count(0, 0, SIZE as int, data.len() as int),
        sent.wf(),
        sent.follows_write(fresh, data.take(n)),
        holds_at(m, base, sent),
    ensures
        n == data.len(),
        indices_in_range(m, base, SIZE as int),
        pending_at(m, base, SIZE as int) == data,
{
    assert(data.take(n) =~= data);
    lemma_write_appends(fresh.slots(), 0, 0, data);
    lemma_memory_shows_ring(sent, m, base);
    assert(pending(fresh.slots(), 0, 0) + data =~= data);
}

/// Sending and draining in turn keeps the byte stream whole and in order.
///
/// Say the consumer has received `delivered` so far, and `delivered`
/// followed by the bytes that wait is everything the ring buffer has taken.
/// A send then takes as many bytes as fit (one slot short of the consumer),
/// and a drain of the memory returns the bytes that waited followed by the
/// ones just taken; after its write-back nothing waits, so the next round
/// starts from the same situation.
pub proof fn lemma_send_drain_round<const SIZE: usize>(
    before: RB<SIZE>,
    after: RB<SIZE>,
    data: Seq<u8>,
    n: int,
    m: Seq<u8>,
    base: int,
    delivered: Seq<u8>,
    taken: Seq<u8>,
)
    requires
        before.wf(),
        before.consumer_index() < SIZE,
        delivered + pending(
            before.slots(),
            before.consumer_index() as int,
            before.producer_index() as int,
        ) == taken,
        n == accepted_count(
            before.producer_index() as int,
            before.consumer_index() as int,
            SIZE as int,
            data.len() as int,
        ),
        after.wf(),
        after.follows_write(before, data.take(n)),
        holds_at(m, base, after),
    ensures
        n == data.len() || pending(
            before.slots(),
            before.consumer_index() as int,
            before.producer_index() as int,
        ).len() + n == SIZE - 1,
        indices_in_range(m, base, SIZE as int),
        delivered + pending_at(m, base, SIZE as int) == taken + data.take(n),
        indices_in_range(
            acknowledged(m, base, SIZE as int, pending_at(m, base, SIZE as int).len() as int),
            base,
            SIZE as int,
        ),
        pending_at(
            acknowledged(m, base, SIZE as int, pending_at(m, base, SIZE as int).len() as int),
            base,
            SIZE as int,
        ).len() == 0,
{
    let c = SIZE as int;
    let cons = before.consumer_index() as int;
    let prod = before.producer_index() as int;
    let waiting = pending(before.slots(), cons, prod);
    lemma_write_appends(before.slots(), cons, prod, data.take(n));
    lemma_memory_shows_ring(after, m, base);
    assert(delivered + pending_at(m, base, c) =~= taken + data.take(n));
    lemma_drain_empties(m, base, c);
}

/// A drain that succeeded leaves nothing waiting: a second drain right after
/// it, with no send between, returns an empty sequence.
pub proof fn lemma_drain_empties(m: Seq<u8>, base: int, c: int)
    requires
        1 <= c,
        indices_in_range(m, base, c),
    ensures
        indices_in_range(acknowledged(m, base, c, pending_at(m, base, c).len() as int), base, c),
        pending_at(acknowledged(m, base, c, pending_at(m, base, c).len() as int), base, c)
            == Seq::<u8>::empty(),
{
    let m2 = acknowledged(m, base, c, pending_at(m, base, c).len() as int);
    assert(m2[base + OFFSET_PRODUCER] == m[base + OFFSET_PRODUCER]);
    assert(consumer_at(m2, base) == producer_at(m, base));
    assert(pending_at(m2, base, c) =~= Seq::<u8>::empty());
}

/// Without a drain the ring buffer never holds more than `SIZE - 1` waiting
/// bytes: a send takes only what fits, and once `SIZE - 1` bytes wait a send
/// takes nothing and leaves the ring buffer as it was. The producer stalls
/// there instead of overwriting a byte that waits.
pub proof fn lemma_full_buffer_blocks<const SIZE: usize>(
    rb: RB<SIZE>,
    after: RB<SIZE>,
    data: Seq<u8>,
    n: int,
)
    requires
        rb.wf(),
        rb.consumer_index() < SIZE,
        n == accepted_count(
            rb.producer_index() as int,
            rb.consumer_index() as int,
            SIZE as int,
            data.len() as int,
        ),
        after.follows_write(rb, data.take(n)),
    ensures
        pending(rb.slots(), rb.consumer_index() as int, rb.producer_index() as int).len() + n
            <= SIZE - 1,
        n == data.len() || pending(
            rb.slots(),
            rb.consumer_index() as int,
            rb.producer_index() as int,
        ).len() + n == SIZE - 1,
        pending(rb.slots(), rb.consumer_index() as int, rb.producer_index() as int).len() == SIZE
            - 1 ==> {
            &&& n == 0
            &&& after.producer_index() == rb.producer_index()
            &&& after.slots() == rb.slots()
        },
{
    let prod = rb.producer_index() as int;
    if n == 0 {
        assert(data.take(0).len() == 0);
        assert(written_slots(rb.slots(), prod, data.take(0)) =~= rb.slots());
    }
}

/// Memory `m2` is memory `m` after the producer of the ring buffer of `c`
/// slots at `base` published more bytes: it moved its index forward, never
/// onto the consumer index, and wrote only slots that held no waiting byte.
pub open spec fn published(m: Seq<u8>, m2: Seq<u8>, base: int, c: int) -> bool {
    let cons = consumer_at(m, base);
    let n = ring_distance(cons, producer_at(m, base), c);
    &&& m2.len() == m.len()
    &&& producer_at(m2, base) < c
    &&& ring_distance(cons, producer_at(m2, base), c) >= n
    &&& forall|a: int|
        0 <= a < m.len() && a != base + OFFSET_PRODUCER && !(base + OFFSET_CONTENT <= a < base
            + OFFSET_CONTENT + c && ring_distance(cons, a - base - OFFSET_CONTENT, c) >= n) ==> (
        #[trigger] m2[a]) == m[a]
}

/// A drain takes a snapshot of the producer index, and that is safe while
/// the producer keeps publishing: the waiting bytes it reads are the ones
/// that waited when it began, and once it has written the consumer index
/// back to the snapshot, exactly the bytes published meanwhile wait, for the
/// next drain.
pub proof fn lemma_publish_during_drain(m: Seq<u8>, m2: Seq<u8>, base: int, c: int)
    requires
        1 <= c,
        indices_in_range(m, base, c),
        base + OFFSET_CONTENT + c <= m.len(),
        published(m, m2, base, c),
    ensures
        indices_in_range(m2, base, c),
        pending_at(m2, base, c).take(pending_at(m, base, c).len() as int) == pending_at(m, base, c),
        pending_at(acknowledged(m2, base, c, pending_at(m, base, c).len() as int), base, c)
            == pending_at(m2, base, c).skip(pending_at(m, base, c).len() as int),
{
    let cons = consumer_at(m, base);
    let p = producer_at(m, base);
    let n = ring_distance(cons, p, c);
    assert(m2[base + OFFSET_CONSUMER] == m[base + OFFSET_CONSUMER]);
    assert forall|k: int| 0 <= k < n implies #[trigger] pending_at(m2, base, c)[k] == pending_at(
        m,
        base,
        c,
    )[k] by {
        let s = slot_after(cons, k, c);
        assert(ring_distance(cons, s, c) == k);
        assert(m2[base + OFFSET_CONTENT + s] == m[base + OFFSET_CONTENT + s]);
    }
    assert(pending_at(m2, base, c).take(n) =~= pending_at(m, base, c));
    let m3 = acknowledged(m2, base, c, n);
    assert(consumer_at(m3, base) == p);
    assert(m3[base + OFFSET_PRODUCER] == m2[base + OFFSET_PRODUCER]);
    assert forall|k: int| 0 <= k < pending_at(m3, base, c).len() implies #[trigger] pending_at(
        m3,
        base,
        c,
    )[k] == pending_at(m2, base, c).skip(n)[k] by {
        assert(slot_after(p, k, c) == slot_after(cons, n + k, c));
        assert(m3[base + OFFSET_CONTENT + slot_after(p, k, c)] == m2[base + OFFSET_CONTENT
            + slot_after(p, k, c)]);
    }
    assert(pending_at(m3, base, c) =~= pending_at(m2, base, c).skip(n));
}

/// Producer and consumer taking turns on a ring buffer with slots `content`
/// and both indices at `p`: in each round the producer offers the next chunk
/// and takes what fits (as [`RB::send_bytes`] does, with the consumer index
/// it sees equal to its own after a drain), then the consumer drains (as
/// [`crate::consumer::ProducerDevice::read_bytes`] does). Returns what the
/// consumer received, then what the producer took, both in order.
pub open spec fn rounds(content: Seq<u8>, p: int, chunks: Seq<Seq<u8>>) -> (Seq<u8>, Seq<u8>)
    decreases chunks.len(),
{
    if chunks.len() == 0 {
        (Seq::empty(), Seq::empty())
    } else {
        let c = content.len() as int;
        let d = chunks[0];
        let n = accepted_count(p, p, c, d.len() as int);
        let content2 = written_slots(content, p, d.take(n));
        let p2 = slot_after(p, n, c);
        let rest = rounds(content2, p2, chunks.skip(1));
        (pending(content2, p, p2) + rest.0, d.take(n) + rest.1)
    }
}

/// Over any number of rounds of sending and draining, whatever the chunks
/// and their lengths, the consumer receives exactly the bytes the producer
/// took, each once, in the order they were taken.
pub proof fn lemma_rounds_deliver_in_order(content: Seq<u8>, p: int, chunks: Seq<Seq<u8>>)
    requires
        1 <= content.len(),
        0 <= p < content.len(),
    ensures
        rounds(content, p, chunks).0 == rounds(content, p, chunks).1,
    decreases chunks.len(),
{
    if chunks.len() > 0 {
        let c = content.len() as int;
        let d = chunks[0];
        let n = accepted_count(p, p, c, d.len() as int);
        lemma_write_appends(content, p, p, d.take(n));
        assert(pending(content, p, p) =~= Seq::<u8>::empty());
        assert(pending(content, p, p) + d.take(n) =~= d.take(n));
        let content2 = written_slots(content, p, d.take(n));
        lemma_rounds_deliver_in_order(content2, slot_after(p, n, c), chunks.skip(1));
    }
}

} // verus!
