//! The consumer side: finds the producer's ring buffer in its memory, through
//! a debug probe, and drains it.
//!
//! A probe is anything that implements [`MemoryReader`]: a JTAG or UPDI
//! driver, or a block of memory in this process.
use vstd::prelude::*;

use crate::layout::{
    MAGIC_BYTE, MAGIC_LEN, OFFSET_CONSUMER, OFFSET_CONTENT, OFFSET_PRODUCER, OFFSET_SIZE,
    acknowledged, consumer_at, indices_in_range, lemma_next_index_mod, magic_at, next_index,
    pending_at, producer_at, ring_distance, slot_after,
};

verus! {

/// Declares `core::fmt::Error`, the error a probe reports, so that the
/// consumer's errors can carry it. It is a unit struct; nothing else is
/// assumed of it.
#[verifier::external_type_specification]
#[verifier::external_body]
pub struct ExFmtError(core::fmt::Error);

/// Error of the consumer.
#[derive(Debug, PartialEq, Eq)]
pub struct ConsumerError(pub ConsumerErrorKind);

/// What went wrong on the consumer side.
#[derive(Debug, PartialEq, Eq)]
pub enum ConsumerErrorKind {
    /// The magic marker is not at the given address: the address is probably
    /// wrong, or the producer never set the structure up.
    MagicMarkerNotFound,
    /// The ring buffer reports a capacity of 0: the structure is corrupted
    /// or not set up yet.
    RingBufferSizeNull,
    /// An index of the ring buffer lies outside the ring: the structure is
    /// corrupted.
    IndexOutOfRange,
    /// The probe failed to read memory.
    ReadMemoryError(core::fmt::Error),
    /// The probe failed to write memory.
    WriteMemoryError(core::fmt::Error),
}

/// One call on a probe, with its outcome.
pub enum Access {
    /// `read_memory` of `len` bytes from `address`; `ok` if it succeeded.
    Read { address: usize, len: usize, ok: bool },
    /// `write_memory` of `value` at `address`; `ok` if it succeeded.
    Write { address: usize, value: u8, ok: bool },
}

/// Access to the producer's memory (a JTAG, UPDI or SWD probe, or a simulated
/// block of memory).
///
/// `memory()` is the producer's memory as the probe sees it: byte `a` of it
/// is the byte at address `a`; `accesses()` lists every call made on the
/// probe with its outcome, oldest first; `reliable()` says the probe never
/// fails inside `memory()`. The model is that of a target that holds still
/// during each call: nothing but this probe changes it. A producer that
/// keeps publishing between the calls of a drain is covered by
/// [`crate::channel::lemma_publish_during_drain`].
///
/// A probe implemented outside `verus!` (any hardware driver) cannot define
/// these: it keeps the defaults (empty memory, no access, not reliable),
/// under which a call that succeeds, or any call at all, breaks the
/// contracts below. For such a probe the contracts of [`ProducerDevice`]
/// guarantee nothing; they cover probes that model the memory they access,
/// such as [`crate::block::MemoryBlock`].
pub trait MemoryReader {
    /// The producer's memory, indexed by address.
    closed spec fn memory(&self) -> Seq<u8> {
        Seq::empty()
    }

    /// Every call made on this probe, with its outcome, oldest first.
    closed spec fn accesses(&self) -> Seq<Access> {
        Seq::empty()
    }

    /// The probe never fails on the memory it holds: every read and write
    /// inside `memory()` succeeds.
    closed spec fn reliable(&self) -> bool {
        false
    }

    /// Fills `buffer` with the bytes that start at `address`.
    fn read_memory(&mut self, address: usize, buffer: &mut [u8]) -> (r: Result<(), core::fmt::Error>)
        ensures
            final(self).memory() == old(self).memory(),
            final(self).accesses() == old(self).accesses().push(
                Access::Read { address, len: old(buffer)@.len() as usize, ok: r is Ok },
            ),
            final(self).reliable() == old(self).reliable(),
            old(self).reliable() && address + old(buffer)@.len() <= old(self).memory().len()
                ==> r is Ok,
            final(buffer)@.len() == old(buffer)@.len(),
            r is Ok ==> {
                &&& address + old(buffer)@.len() <= old(self).memory().len()
                &&& final(buffer)@ == old(self).memory().subrange(
                    address as int,
                    address + old(buffer)@.len(),
                )
            },
    ;

    /// Writes `value` at `address`. A write that fails may or may not have
    /// reached the memory.
    fn write_memory(&mut self, address: usize, value: u8) -> (r: Result<(), core::fmt::Error>)
        ensures
            final(self).accesses() == old(self).accesses().push(
                Access::Write { address, value, ok: r is Ok },
            ),
            final(self).reliable() == old(self).reliable(),
            old(self).reliable() && address < old(self).memory().len() ==> r is Ok,
            r is Ok ==> address < old(self).memory().len() && final(self).memory() == old(
                self,
            ).memory().update(address as int, value),
            r is Err ==> final(self).memory() == old(self).memory() || (address < old(
                self,
            ).memory().len() && final(self).memory() == old(self).memory().update(
                address as int,
                value,
            )),
    ;
}

/// A one-byte read at `address`.
pub open spec fn byte_read(address: int, ok: bool) -> Access {
    Access::Read { address: address as usize, len: 1, ok }
}

/// The read of the magic marker at `address`.
pub open spec fn marker_read(address: int, ok: bool) -> Access {
    Access::Read { address: address as usize, len: MAGIC_LEN, ok }
}

/// The reads of the producer index, then the consumer index, of the ring
/// buffer at `base`, both successful.
pub open spec fn index_reads(base: int) -> Seq<Access> {
    seq![byte_read(base + OFFSET_PRODUCER, true), byte_read(base + OFFSET_CONSUMER, true)]
}

/// The read of the slot of byte `i` of a drain from consumer index `cons`.
pub open spec fn slot_read(base: int, c: int, cons: int, i: int, ok: bool) -> Access {
    byte_read(base + OFFSET_CONTENT + slot_after(cons, i, c), ok)
}

/// The write-back of the consumer index past byte `i` of a drain from
/// consumer index `cons`.
pub open spec fn ack_write(base: int, c: int, cons: int, i: int, ok: bool) -> Access {
    Access::Write {
        address: (base + OFFSET_CONSUMER) as usize,
        value: slot_after(cons, i + 1, c) as u8,
        ok,
    }
}

/// The accesses that take the first `j` bytes of a drain from consumer
/// index `cons`: for each byte, the read of its slot and, right after it,
/// the write-back of the consumer index past it, all successful.
pub open spec fn drain_accesses(base: int, c: int, cons: int, j: nat) -> Seq<Access>
    decreases j,
{
    if j == 0 {
        Seq::empty()
    } else {
        drain_accesses(base, c, cons, (j - 1) as nat) + seq![
            slot_read(base, c, cons, j - 1, true),
            ack_write(base, c, cons, j - 1, true),
        ]
    }
}

/// A drain of the ring buffer of `c` slots at `base`, taking memory `m` with
/// access log `log` to `m2` with log `log2`, ended at a read that failed,
/// its last access: the read of the producer index, of the consumer index,
/// or of the slot of byte `j` (`j` below `limit`) after the first `j` bytes
/// were read and acknowledged, so the consumer index is the one written back
/// last.
pub open spec fn read_failed(
    m: Seq<u8>,
    log: Seq<Access>,
    m2: Seq<u8>,
    log2: Seq<Access>,
    base: int,
    c: int,
    limit: int,
) -> bool {
    let cons = consumer_at(m, base);
    ||| m2 == m && log2 == log.push(byte_read(base + OFFSET_PRODUCER, false))
    ||| m2 == m && log2 == log.push(byte_read(base + OFFSET_PRODUCER, true)).push(
        byte_read(base + OFFSET_CONSUMER, false),
    )
    ||| {
        &&& indices_in_range(m, base, c)
        &&& exists|j: int|
            0 <= j < limit && j < ring_distance(cons, producer_at(m, base), c) && m2
                == acknowledged(m, base, c, j) && log2 == log + index_reads(base) + (
            #[trigger] drain_accesses(base, c, cons, j as nat)).push(
                slot_read(base, c, cons, j, false),
            )
    }
}

/// A drain of the ring buffer of `c` slots at `base`, taking memory `m` with
/// access log `log` to `m2` with log `log2`, ended at a write-back that
/// failed, its last access: the first `j` bytes (`j` below `limit`) were read
/// and acknowledged, byte `j` was read, and its write-back failed, which may
/// or may not have reached the memory.
pub open spec fn write_failed(
    m: Seq<u8>,
    log: Seq<Access>,
    m2: Seq<u8>,
    log2: Seq<Access>,
    base: int,
    c: int,
    limit: int,
) -> bool {
    let cons = consumer_at(m, base);
    &&& indices_in_range(m, base, c)
    &&& exists|j: int|
        0 <= j < limit && j < ring_distance(cons, producer_at(m, base), c) && (m2
            == acknowledged(m, base, c, j) || m2 == acknowledged(m, base, c, j + 1)) && log2 == log
            + index_reads(base) + (#[trigger] drain_accesses(base, c, cons, j as nat)).push(
            slot_read(base, c, cons, j, true),
        ).push(ack_write(base, c, cons, j, false))
}

/// Checks the three bytes read at the start of the structure against the
/// magic marker.
pub fn check_marker(m: &[u8; 3]) -> (r: Result<(), ConsumerError>)
    ensures
        r is Ok <==> m@ == seq![MAGIC_BYTE, MAGIC_BYTE, MAGIC_BYTE],
        r is Err ==> r == Err::<(), ConsumerError>(
            ConsumerError(ConsumerErrorKind::MagicMarkerNotFound),
        ),
{
    if m[0] == MAGIC_BYTE && m[1] == MAGIC_BYTE && m[2] == MAGIC_BYTE {
        assert(m@ =~= seq![MAGIC_BYTE, MAGIC_BYTE, MAGIC_BYTE]);
        Ok(())
    } else {
        assert(m@[0] == m[0] && m@[1] == m[1] && m@[2] == m[2]);
        Err(ConsumerError(ConsumerErrorKind::MagicMarkerNotFound))
    }
}

/// Checks the capacity byte read from the structure: 0 means the structure
/// is corrupted or not set up.
pub fn check_capacity(s: u8) -> (r: Result<u8, ConsumerError>)
    ensures
        s == 0 ==> r == Err::<u8, ConsumerError>(
            ConsumerError(ConsumerErrorKind::RingBufferSizeNull),
        ),
        s != 0 ==> r == Ok::<u8, ConsumerError>(s),
{
    if s == 0 {
        Err(ConsumerError(ConsumerErrorKind::RingBufferSizeNull))
    } else {
        Ok(s)
    }
}

/// Decides one step of a drain from the producer index `prod` and the
/// consumer index `cons` that were read, in a ring of `size` slots: an error
/// if an index lies outside the ring, `None` if nothing waits, else the
/// consumer index to write back once the byte in slot `cons` is read.
pub fn drain_step(prod: u8, cons: u8, size: u8) -> (r: Result<Option<u8>, ConsumerError>)
    requires
        size > 0,
    ensures
        (prod >= size || cons >= size) ==> r == Err::<Option<u8>, ConsumerError>(
            ConsumerError(ConsumerErrorKind::IndexOutOfRange),
        ),
        (prod < size && cons < size && prod == cons) ==> r == Ok::<Option<u8>, ConsumerError>(
            None,
        ),
        (prod < size && cons < size && prod != cons) ==> r == Ok::<Option<u8>, ConsumerError>(
            Some(next_index(cons as int, size as int) as u8),
        ),
{
    if prod >= size || cons >= size {
        Err(ConsumerError(ConsumerErrorKind::IndexOutOfRange))
    } else if prod == cons {
        Ok(None)
    } else {
        proof {
            lemma_next_index_mod(cons as int, size as int);
        }
        Ok(Some((cons + 1) % size))
    }
}

/// Reads and checks the header of the ring buffer at `ram_start_address`:
/// the magic marker, then, only if it matches, the capacity, which must not
/// be 0 and must leave the whole structure inside the address space. Writes
/// nothing. Returns the capacity.
pub fn read_header<M: MemoryReader>(memory_reader: &mut M, ram_start_address: usize) -> (r: Result<
    u8,
    ConsumerError,
>)
    requires
        ram_start_address + OFFSET_SIZE < usize::MAX,
    ensures
        final(memory_reader).memory() == old(memory_reader).memory(),
        final(memory_reader).reliable() == old(memory_reader).reliable(),
        ({
            let m = old(memory_reader).memory();
            let log = old(memory_reader).accesses();
            let log2 = final(memory_reader).accesses();
            let a = ram_start_address as int;
            let both = log.push(marker_read(a, true)).push(byte_read(a + OFFSET_SIZE, true));
            match r {
                Ok(s) => {
                    &&& log2 == both
                    &&& magic_at(m, a)
                    &&& a + OFFSET_SIZE < m.len()
                    &&& s == m[a + OFFSET_SIZE]
                    &&& s != 0
                    &&& a + OFFSET_CONTENT + s <= usize::MAX
                },
                Err(ConsumerError(ConsumerErrorKind::MagicMarkerNotFound)) => {
                    &&& log2 == log.push(marker_read(a, true))
                    &&& a + MAGIC_LEN <= m.len()
                    &&& !magic_at(m, a)
                },
                Err(ConsumerError(ConsumerErrorKind::RingBufferSizeNull)) => {
                    &&& log2 == both
                    &&& magic_at(m, a)
                    &&& a + OFFSET_SIZE < m.len()
                    &&& m[a + OFFSET_SIZE] == 0
                },
                Err(ConsumerError(ConsumerErrorKind::ReadMemoryError(_))) => {
                    ||| {
                        &&& log2 == log.push(marker_read(a, false))
                        &&& !(old(memory_reader).reliable() && a + MAGIC_LEN <= m.len())
                    }
                    ||| {
                        &&& log2 == log.push(marker_read(a, true)).push(
                            byte_read(a + OFFSET_SIZE, false),
                        )
                        &&& magic_at(m, a)
                        &&& !(old(memory_reader).reliable() && a + OFFSET_SIZE < m.len())
                    }
                    ||| {
                        &&& log2 == both
                        &&& magic_at(m, a)
                        &&& a + OFFSET_SIZE < m.len()
                        &&& m[a + OFFSET_SIZE] != 0
                        &&& a + OFFSET_CONTENT + m[a + OFFSET_SIZE] > usize::MAX
                    }
                },
                Err(_) => false,
            }
        }),
{
    let ghost m = memory_reader.memory();
    let mut magic_markers = [0u8; 3];
    match memory_reader.read_memory(ram_start_address, &mut magic_markers) {
        Ok(()) => {},
        Err(e) => {
            return Err(ConsumerError(ConsumerErrorKind::ReadMemoryError(e)));
        },
    }
    assert(magic_markers@ == m.subrange(ram_start_address as int, ram_start_address + 3));
    assert(magic_markers@[0] == m[ram_start_address as int]);
    assert(magic_markers@[1] == m[ram_start_address + 1]);
    assert(magic_markers@[2] == m[ram_start_address + 2]);
    match check_marker(&magic_markers) {
        Ok(()) => {},
        Err(e) => {
            proof {
                if magic_at(m, ram_start_address as int) {
                    assert(magic_markers@ =~= seq![MAGIC_BYTE, MAGIC_BYTE, MAGIC_BYTE]);
                }
            }
            return Err(e);
        },
    }
    let mut buf = [0u8; 1];
    match memory_reader.read_memory(ram_start_address + OFFSET_SIZE, &mut buf) {
        Ok(()) => {},
        Err(e) => {
            return Err(ConsumerError(ConsumerErrorKind::ReadMemoryError(e)));
        },
    }
    assert(buf@[0] == m[ram_start_address + OFFSET_SIZE]);
    let size = match check_capacity(buf[0]) {
        Ok(s) => s,
        Err(e) => {
            return Err(e);
        },
    };
    if ram_start_address > usize::MAX - OFFSET_CONTENT || size as usize > usize::MAX
        - OFFSET_CONTENT - ram_start_address {
        // The structure would run past the end of the address space.
        return Err(ConsumerError(ConsumerErrorKind::ReadMemoryError(core::fmt::Error::default())));
    }
    Ok(size)
}

/// A producer seen from the consumer: a probe into its memory, the address of
/// its ring buffer, and the ring buffer's capacity.
pub struct ProducerDevice<M: MemoryReader> {
    /// Address of the ring buffer.
    ram_start: usize,
    /// The probe.
    memory_reader: M,
    /// Capacity of the ring buffer, read once at construction.
    rb_size: u8,
}

impl<M: MemoryReader> ProducerDevice<M> {
    /// A non-null capacity, and a structure whose addresses fit in `usize`.
    pub closed spec fn wf(&self) -> bool {
        &&& self.rb_size > 0
        &&& self.ram_start + OFFSET_CONTENT + self.rb_size <= usize::MAX
    }

    /// Address of the ring buffer.
    pub closed spec fn base(&self) -> int {
        self.ram_start as int
    }

    /// Capacity of the ring buffer.
    pub closed spec fn capacity(&self) -> int {
        self.rb_size as int
    }

    /// The producer's memory, as the probe sees it.
    pub closed spec fn memory(&self) -> Seq<u8> {
        self.memory_reader.memory()
    }

    /// Every call made on the probe, with its outcome.
    pub closed spec fn accesses(&self) -> Seq<Access> {
        self.memory_reader.accesses()
    }

    /// The probe never fails on the memory it holds.
    pub closed spec fn reliable(&self) -> bool {
        self.memory_reader.reliable()
    }

    /// The whole ring buffer lies in the memory the probe holds.
    pub open spec fn ring_in_memory(&self) -> bool {
        self.base() + OFFSET_CONTENT + self.capacity() <= self.memory().len()
    }

    /// Connects to the ring buffer at `ram_start_address`: checks the magic
    /// marker, then reads the capacity, which must not be 0 (see
    /// [`read_header`], which makes every access and decides every error).
    pub fn new(mut memory_reader: M, ram_start_address: usize) -> (r: Result<
        ProducerDevice<M>,
        ConsumerError,
    >)
        requires
            ram_start_address + OFFSET_SIZE < usize::MAX,
        ensures
            ({
                let m = memory_reader.memory();
                let a = ram_start_address as int;
                match r {
                    Ok(d) => {
                        &&& d.wf()
                        &&& d.base() == a
                        &&& d.memory() == m
                        &&& d.accesses() == memory_reader.accesses().push(marker_read(a, true)).push(
                            byte_read(a + OFFSET_SIZE, true),
                        )
                        &&& d.reliable() == memory_reader.reliable()
                        &&& magic_at(m, a)
                        &&& a + OFFSET_SIZE < m.len()
                        &&& d.capacity() == m[a + OFFSET_SIZE]
                        &&& d.capacity() != 0
                    },
                    Err(ConsumerError(ConsumerErrorKind::MagicMarkerNotFound)) => {
                        &&& a + MAGIC_LEN <= m.len()
                        &&& !magic_at(m, a)
                    },
                    Err(ConsumerError(ConsumerErrorKind::RingBufferSizeNull)) => {
                        &&& magic_at(m, a)
                        &&& a + OFFSET_SIZE < m.len()
                        &&& m[a + OFFSET_SIZE] == 0
                    },
                    Err(ConsumerError(ConsumerErrorKind::ReadMemoryError(_))) => {
                        ||| !(memory_reader.reliable() && a + MAGIC_LEN <= m.len())
                        ||| (magic_at(m, a) && !(memory_reader.reliable() && a + OFFSET_SIZE
                            < m.len()))
                        ||| (magic_at(m, a) && a + OFFSET_SIZE < m.len() && m[a + OFFSET_SIZE]
                            != 0 && a + OFFSET_CONTENT + m[a + OFFSET_SIZE] > usize::MAX)
                    },
                    Err(_) => false,
                }
            }),
    {
        match read_header(&mut memory_reader, ram_start_address) {
            Ok(rb_size) => Ok(ProducerDevice { ram_start: ram_start_address, memory_reader, rb_size }),
            Err(e) => Err(e),
        }
    }

    /// Gives the probe back.
    pub fn into_memory_reader(self) -> (r: M)
        ensures
            r.memory() == self.memory(),
            r.accesses() == self.accesses(),
            r.reliable() == self.reliable(),
    {
        self.memory_reader
    }

    /// Reads the byte at `address` of the producer's memory.
    pub fn read_one_byte(&mut self, address: usize) -> (r: Result<u8, ConsumerError>)
        ensures
            final(self).wf() == old(self).wf(),
            final(self).base() == old(self).base(),
            final(self).capacity() == old(self).capacity(),
            final(self).memory() == old(self).memory(),
            final(self).accesses() == old(self).accesses().push(byte_read(address as int, r is Ok)),
            final(self).reliable() == old(self).reliable(),
            old(self).reliable() && address < old(self).memory().len() ==> r is Ok,
            match r {
                Ok(v) => address < old(self).memory().len() && v == old(self).memory()[address as int],
                Err(e) => e.0 is ReadMemoryError,
            },
    {
        let mut buf = [0u8; 1];
        match self.memory_reader.read_memory(address, &mut buf) {
            Ok(()) => {
                assert(buf@[0] == old(self).memory()[address as int]);
                Ok(buf[0])
            },
            Err(e) => Err(ConsumerError(ConsumerErrorKind::ReadMemoryError(e))),
        }
    }

    /// Takes the oldest byte that waits in the ring buffer, if any, and writes
    /// the consumer index past it back: the drain of one byte, for callers
    /// that want to keep what they got before a failure of the probe.
    pub fn read_byte(&mut self) -> (r: Result<Option<u8>, ConsumerError>)
        requires
            old(self).wf(),
        ensures
            final(self).wf(),
            final(self).base() == old(self).base(),
            final(self).capacity() == old(self).capacity(),
            final(self).reliable() == old(self).reliable(),
            old(self).reliable() && old(self).ring_in_memory() ==> (r is Ok <==> indices_in_range(
                old(self).memory(),
                old(self).base(),
                old(self).capacity(),
            )),
            ({
                let m = old(self).memory();
                let b = old(self).base();
                let c = old(self).capacity();
                let log = old(self).accesses();
                let m2 = final(self).memory();
                let log2 = final(self).accesses();
                let cons = consumer_at(m, b);
                match r {
                    Ok(None) => {
                        &&& indices_in_range(m, b, c)
                        &&& pending_at(m, b, c).len() == 0
                        &&& m2 == m
                        &&& log2 == log + index_reads(b)
                    },
                    Ok(Some(v)) => {
                        &&& indices_in_range(m, b, c)
                        &&& pending_at(m, b, c).len() > 0
                        &&& v == pending_at(m, b, c)[0]
                        &&& m2 == acknowledged(m, b, c, 1)
                        &&& log2 == log + index_reads(b) + drain_accesses(b, c, cons, 1)
                    },
                    Err(ConsumerError(ConsumerErrorKind::IndexOutOfRange)) => {
                        &&& !indices_in_range(m, b, c)
                        &&& m2 == m
                        &&& log2 == log + index_reads(b)
                    },
                    Err(ConsumerError(ConsumerErrorKind::ReadMemoryError(_))) => read_failed(
                        m,
                        log,
                        m2,
                        log2,
                        b,
                        c,
                        1,
                    ),
                    Err(ConsumerError(ConsumerErrorKind::WriteMemoryError(_))) => write_failed(
                        m,
                        log,
                        m2,
                        log2,
                        b,
                        c,
                        1,
                    ),
                    Err(_) => false,
                }
            }),
    {
        let ghost m = self.memory();
        let ghost log = self.accesses();
        let ghost b = self.base();
        let ghost c = self.capacity();
        let cons_a = self.ram_start + OFFSET_CONSUMER;
        let prod_v = match self.read_one_byte(self.ram_start + OFFSET_PRODUCER) {
            Ok(v) => v,
            Err(e) => {
                return Err(e);
            },
        };
        let cons_v = match self.read_one_byte(cons_a) {
            Ok(v) => v,
            Err(e) => {
                return Err(e);
            },
        };
        assert(self.accesses() =~= log + index_reads(b));
        let next = match drain_step(prod_v, cons_v, self.rb_size) {
            Ok(Some(n)) => n,
            Ok(None) => {
                return Ok(None);
            },
            Err(e) => {
                return Err(e);
            },
        };
        let ghost cons = cons_v as int;
        assert(cons == consumer_at(m, b));
        assert(prod_v as int == producer_at(m, b));
        assert(indices_in_range(m, b, c));
        assert(0 < ring_distance(cons, prod_v as int, c));
        assert(drain_accesses(b, c, cons, 0) =~= Seq::<Access>::empty());
        assert(acknowledged(m, b, c, 0) =~= m);
        let v = match self.read_one_byte(self.ram_start + OFFSET_CONTENT + cons_v as usize) {
            Ok(v) => v,
            Err(e) => {
                proof {
                    let d = drain_accesses(b, c, cons, 0int as nat);
                    assert(self.accesses() =~= log + index_reads(b) + d.push(
                        slot_read(b, c, cons, 0, false),
                    ));
                    assert(read_failed(m, log, self.memory(), self.accesses(), b, c, 1));
                }
                return Err(e);
            },
        };
        assert(v == pending_at(m, b, c)[0]);
        proof {
            lemma_next_index_mod(cons, c);
        }
        match self.memory_reader.write_memory(cons_a, next) {
            Ok(()) => {},
            Err(e) => {
                proof {
                    let d = drain_accesses(b, c, cons, 0int as nat);
                    assert(self.accesses() =~= log + index_reads(b) + d.push(
                        slot_read(b, c, cons, 0, true),
                    ).push(ack_write(b, c, cons, 0, false)));
                    assert(self.memory() == acknowledged(m, b, c, 0) || self.memory()
                        == acknowledged(m, b, c, 1));
                    assert(write_failed(m, log, self.memory(), self.accesses(), b, c, 1));
                }
                return Err(ConsumerError(ConsumerErrorKind::WriteMemoryError(e)));
            },
        }
        assert(self.accesses() =~= log + index_reads(b) + drain_accesses(b, c, cons, 1));
        Ok(Some(v))
    }

    /// Takes every byte that waits in the ring buffer, oldest first.
    ///
    /// Reads the producer index once, then the consumer index, then for each
    /// waiting byte reads its slot and at once writes the consumer index past
    /// it back, so that the producer can reuse the slot. Returns an empty
    /// sequence when nothing waits. The first failed call on the probe ends
    /// the drain with its kind of error; the bytes read so far are not
    /// returned, and the consumer index stays where its last write put it.
    pub fn read_bytes(&mut self) -> (r: Result<Vec<u8>, ConsumerError>)
        requires
            old(self).wf(),
        ensures
            final(self).wf(),
            final(self).base() == old(self).base(),
            final(self).capacity() == old(self).capacity(),
            final(self).reliable() == old(self).reliable(),
            old(self).reliable() && old(self).ring_in_memory() ==> (r is Ok <==> indices_in_range(
                old(self).memory(),
                old(self).base(),
                old(self).capacity(),
            )),
            ({
                let m = old(self).memory();
                let b = old(self).base();
                let c = old(self).capacity();
                let log = old(self).accesses();
                let m2 = final(self).memory();
                let log2 = final(self).accesses();
                let cons = consumer_at(m, b);
                match r {
                    Ok(bytes) => {
                        &&& indices_in_range(m, b, c)
                        &&& bytes@ == pending_at(m, b, c)
                        &&& m2 == acknowledged(m, b, c, bytes@.len() as int)
                        &&& log2 == log + index_reads(b) + drain_accesses(b, c, cons, bytes@.len())
                    },
                    Err(ConsumerError(ConsumerErrorKind::IndexOutOfRange)) => {
                        &&& !indices_in_range(m, b, c)
                        &&& m2 == m
                        &&& log2 == log + index_reads(b)
                    },
                    Err(ConsumerError(ConsumerErrorKind::ReadMemoryError(_))) => read_failed(
                        m,
                        log,
                        m2,
                        log2,
                        b,
                        c,
                        c,
                    ),
                    Err(ConsumerError(ConsumerErrorKind::WriteMemoryError(_))) => write_failed(
                        m,
                        log,
                        m2,
                        log2,
                        b,
                        c,
                        c,
                    ),
                    Err(_) => false,
                }
            }),
    {
        let ghost m = self.memory();
        let ghost log = self.accesses();
        let ghost b = self.base();
        let ghost c = self.capacity();
        let prod_a = self.ram_start + OFFSET_PRODUCER;
        let cons_a = self.ram_start + OFFSET_CONSUMER;
        let buff_a = self.ram_start + OFFSET_CONTENT;

        let prod_v = match self.read_one_byte(prod_a) {
            Ok(v) => v,
            Err(e) => {
                return Err(e);
            },
        };
        let mut cons_v = match self.read_one_byte(cons_a) {
            Ok(v) => v,
            Err(e) => {
                return Err(e);
            },
        };
        assert(self.accesses() =~= log + index_reads(b));
        let mut step = match drain_step(prod_v, cons_v, self.rb_size) {
            Ok(s) => s,
            Err(e) => {
                return Err(e);
            },
        };
        let ghost cons0 = cons_v as int;
        let ghost count = ring_distance(cons0, prod_v as int, c);
        assert(acknowledged(m, b, c, 0) =~= m);
        assert(log + index_reads(b) + drain_accesses(b, c, cons0, 0) =~= log + index_reads(b));

        let mut bytes: Vec<u8> = Vec::new();
        while step.is_some()
            invariant
                self.wf(),
                self.base() == b,
                self.capacity() == c,
                b == old(self).base(),
                c == old(self).capacity(),
                m == old(self).memory(),
                log == old(self).accesses(),
                b + OFFSET_CONTENT == buff_a,
                b + OFFSET_CONSUMER == cons_a,
                indices_in_range(m, b, c),
                prod_v as int == producer_at(m, b),
                cons0 == consumer_at(m, b),
                count == ring_distance(cons0, prod_v as int, c),
                0 <= bytes@.len() <= count,
                cons_v < c,
                cons_v as int == slot_after(cons0, bytes@.len() as int, c),
                ring_distance(cons_v as int, prod_v as int, c) == count - bytes@.len(),
                step == (if prod_v == cons_v {
                    None::<u8>
                } else {
                    Some(next_index(cons_v as int, c) as u8)
                }),
                bytes@ == pending_at(m, b, c).take(bytes@.len() as int),
                self.memory() == acknowledged(m, b, c, bytes@.len() as int),
                self.accesses() == log + index_reads(b) + drain_accesses(
                    b,
                    c,
                    cons0,
                    bytes@.len(),
                ),
                self.reliable() == old(self).reliable(),
                self.memory().len() == m.len(),
                m.len() == old(self).memory().len(),
            decreases count - bytes@.len(),
        {
            let ghost k = bytes@.len() as int;
            let ghost before = self.accesses();
            let next = step.unwrap();
            let buff_v = match self.read_one_byte(buff_a + cons_v as usize) {
                Ok(v) => v,
                Err(e) => {
                    proof {
                        let d = drain_accesses(b, c, cons0, k as nat);
                        assert(self.accesses() =~= log + index_reads(b) + d.push(
                            slot_read(b, c, cons0, k, false),
                        ));
                        assert(read_failed(m, log, self.memory(), self.accesses(), b, c, c));
                    }
                    return Err(e);
                },
            };
            assert(buff_v == pending_at(m, b, c)[k]);
            proof {
                lemma_next_index_mod(cons_v as int, c);
            }
            bytes.push(buff_v);
            assert(bytes@ =~= pending_at(m, b, c).take(k + 1));
            assert(acknowledged(m, b, c, k).update(b + OFFSET_CONSUMER, next)
                =~= acknowledged(m, b, c, k + 1));
            match self.memory_reader.write_memory(cons_a, next) {
                Ok(()) => {},
                Err(e) => {
                    proof {
                        let d = drain_accesses(b, c, cons0, k as nat);
                        assert(self.accesses() =~= log + index_reads(b) + d.push(
                            slot_read(b, c, cons0, k, true),
                        ).push(ack_write(b, c, cons0, k, false)));
                        assert(self.memory() == acknowledged(m, b, c, k) || self.memory()
                            == acknowledged(m, b, c, k + 1));
                        assert(write_failed(m, log, self.memory(), self.accesses(), b, c, c));
                    }
                    return Err(ConsumerError(ConsumerErrorKind::WriteMemoryError(e)));
                },
            }
            assert(self.accesses() =~= log + index_reads(b) + drain_accesses(
                b,
                c,
                cons0,
                (k + 1) as nat,
            ));
            cons_v = next;
            step = match drain_step(prod_v, cons_v, self.rb_size) {
                Ok(s) => s,
                Err(_) => None,
            };
        }
        assert(pending_at(m, b, c).take(count) =~= pending_at(m, b, c));
        Ok(bytes)
    }
}

} // verus!
