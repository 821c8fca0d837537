//! The byte layout of the ring buffer, shared by producer and consumer, and
//! the mathematical model of its contents.
//!
//! | offset | field          | width      |
//! |--------|----------------|------------|
//! | 0      | magic marker   | 3 bytes    |
//! | 3      | capacity       | 1 byte     |
//! | 4      | producer index | 1 byte     |
//! | 5      | consumer index | 1 byte     |
//! | 6      | content        | `capacity` |
use vstd::prelude::*;

verus! {

/// Each of the three bytes of the magic marker.
pub const MAGIC_BYTE: u8 = 0x88;

/// Number of bytes of the magic marker.
pub const MAGIC_LEN: usize = 3;

/// Offset of the capacity byte.
pub const OFFSET_SIZE: usize = 3;

/// Offset of the producer index.
pub const OFFSET_PRODUCER: usize = 4;

/// Offset of the consumer index.
pub const OFFSET_CONSUMER: usize = 5;

/// Offset of the first content slot.
pub const OFFSET_CONTENT: usize = 6;

/// The largest capacity that fits the one-byte capacity field.
pub const MAX_CAPACITY: usize = 255;

/// Byte that fills the content slots of a fresh ring buffer.
pub const FILL_BYTE: u8 = 0x13;

/// The index that follows `i` in a ring of `c` slots.
pub open spec fn next_index(i: int, c: int) -> int {
    if i + 1 < c {
        i + 1
    } else {
        0
    }
}

/// How many steps it takes to go from index `from` to index `to` in a ring
/// of `c` slots.
pub open spec fn ring_distance(from: int, to: int, c: int) -> int {
    if from <= to {
        to - from
    } else {
        to + c - from
    }
}

/// The slot reached after `k` steps from slot `from` in a ring of `c` slots
/// (`k < c`).
pub open spec fn slot_after(from: int, k: int, c: int) -> int {
    if from + k < c {
        from + k
    } else {
        from + k - c
    }
}

/// The bytes waiting in `content`, oldest first, when the consumer index is
/// `cons` and the producer index is `prod`.
pub open spec fn pending(content: Seq<u8>, cons: int, prod: int) -> Seq<u8> {
    let c = content.len() as int;
    Seq::new(ring_distance(cons, prod, c) as nat, |k: int| content[slot_after(cons, k, c)])
}

/// The bytes of a whole ring buffer as laid out in memory.
pub open spec fn layout_bytes(size: u8, prod: u8, cons: u8, content: Seq<u8>) -> Seq<u8> {
    seq![MAGIC_BYTE, MAGIC_BYTE, MAGIC_BYTE, size, prod, cons] + content
}

/// Memory `m` holds the magic marker at address `base`.
pub open spec fn magic_at(m: Seq<u8>, base: int) -> bool {
    &&& 0 <= base
    &&& base + MAGIC_LEN <= m.len()
    &&& m[base] == MAGIC_BYTE
    &&& m[base + 1] == MAGIC_BYTE
    &&& m[base + 2] == MAGIC_BYTE
}

/// The producer index of the ring buffer at `base` in memory `m`.
pub open spec fn producer_at(m: Seq<u8>, base: int) -> int {
    m[base + OFFSET_PRODUCER] as int
}

/// The consumer index of the ring buffer at `base` in memory `m`.
pub open spec fn consumer_at(m: Seq<u8>, base: int) -> int {
    m[base + OFFSET_CONSUMER] as int
}

/// Both indices of the ring buffer of `c` slots at `base` lie inside the ring.
pub open spec fn indices_in_range(m: Seq<u8>, base: int, c: int) -> bool {
    &&& 0 <= base
    &&& base + OFFSET_CONTENT <= m.len()
    &&& producer_at(m, base) < c
    &&& consumer_at(m, base) < c
}

/// The bytes waiting in the ring buffer of `c` slots at `base` in memory `m`,
/// oldest first.
pub open spec fn pending_at(m: Seq<u8>, base: int, c: int) -> Seq<u8> {
    let cons = consumer_at(m, base);
    Seq::new(
        ring_distance(cons, producer_at(m, base), c) as nat,
        |k: int| m[base + OFFSET_CONTENT + slot_after(cons, k, c)],
    )
}

/// Memory `m` after the consumer has taken the first `k` waiting bytes of the
/// ring buffer of `c` slots at `base` and written its index back.
pub open spec fn acknowledged(m: Seq<u8>, base: int, c: int, k: int) -> Seq<u8> {
    m.update(base + OFFSET_CONSUMER, slot_after(consumer_at(m, base), k, c) as u8)
}

/// How many of `n` offered bytes a producer at index `prod` accepts when the
/// consumer index reads `cons`: it stops one slot short of the consumer, and
/// accepts nothing while the consumer index lies outside the ring.
pub open spec fn accepted_count(prod: int, cons: int, c: int, n: int) -> int {
    if 0 <= cons < c {
        let room = c - 1 - ring_distance(cons, prod, c);
        if n < room {
            n
        } else {
            room
        }
    } else {
        0
    }
}

/// The slots after `data` has been written into `content`, one byte per slot,
/// starting at slot `prod` and wrapping around (`data` shorter than the ring).
pub open spec fn written_slots(content: Seq<u8>, prod: int, data: Seq<u8>) -> Seq<u8> {
    let c = content.len() as int;
    Seq::new(
        content.len(),
        |i: int|
            if ring_distance(prod, i, c) < data.len() {
                data[ring_distance(prod, i, c)]
            } else {
                content[i]
            },
    )
}

/// The successor index is the remainder of the next integer by the ring size.
pub proof fn lemma_next_index_mod(i: int, c: int)
    requires
        0 <= i < c,
    ensures
        (i + 1) % c == next_index(i, c),
        0 <= next_index(i, c) < c,
{
    if i + 1 < c {
        vstd::arithmetic::div_mod::lemma_small_mod((i + 1) as nat, c as nat);
    } else {
        vstd::arithmetic::div_mod::lemma_mod_self_0(c);
    }
}

/// Writing `data` at the producer index and moving the producer index past
/// it appends `data` to the pending bytes, provided it fits in the room left.
pub proof fn lemma_write_appends(content: Seq<u8>, cons: int, prod: int, data: Seq<u8>)
    requires
        0 <= cons < content.len(),
        0 <= prod < content.len(),
        data.len() <= content.len() - 1 - ring_distance(cons, prod, content.len() as int),
    ensures
        pending(
            written_slots(content, prod, data),
            cons,
            slot_after(prod, data.len() as int, content.len() as int),
        ) =~= pending(content, cons, prod) + data,
        ring_distance(cons, slot_after(prod, data.len() as int, content.len() as int), content.len() as int)
            == ring_distance(cons, prod, content.len() as int) + data.len(),
{
    let c = content.len() as int;
    let l = ring_distance(cons, prod, c);
    let n = data.len() as int;
    let after = written_slots(content, prod, data);
    let p2 = slot_after(prod, n, c);
    assert forall|k: int| 0 <= k < l + n implies #[trigger] pending(after, cons, p2)[k] == (
    pending(content, cons, prod) + data)[k] by {
        let s = slot_after(cons, k, c);
        if k < l {
            assert(ring_distance(prod, s, c) == c - l + k);
        } else {
            assert(ring_distance(prod, s, c) == k - l);
        }
    }
}

} // verus!
