use std::cell::RefCell;
use std::rc::Rc;

use ramlink::consumer::{
    ConsumerError, ConsumerErrorKind, MemoryReader, ProducerDevice, check_capacity, check_marker,
    drain_step,
};
use ramlink::block::MemoryBlock;
use ramlink::producer::{RB, SpinAction, next_spin};

/// A block of memory shared by a simulated producer and a probe.
type Memory = Rc<RefCell<Vec<u8>>>;

/// A probe into a block of memory, which can be told to fail.
struct Probe {
    mem: Memory,
    /// Reads that succeed before every later one fails.
    reads_left: Option<usize>,
    /// Writes that succeed before every later one fails.
    writes_left: Option<usize>,
    /// Reads done so far.
    reads_done: usize,
    /// Writes of a running producer, made to memory once that many reads are done.
    publish: Option<(usize, Vec<(usize, u8)>)>,
}

impl Probe {
    fn new(mem: &Memory) -> Probe {
        Probe { mem: Rc::clone(mem), reads_left: None, writes_left: None, reads_done: 0, publish: None }
    }
}

impl MemoryReader for Probe {
    fn read_memory(&mut self, address: usize, buffer: &mut [u8]) -> Result<(), core::fmt::Error> {
        if let Some(n) = self.reads_left.as_mut() {
            if *n == 0 {
                return Err(core::fmt::Error);
            }
            *n -= 1;
        }
        {
            let mem = self.mem.borrow();
            if address + buffer.len() > mem.len() {
                return Err(core::fmt::Error);
            }
            buffer.copy_from_slice(&mem[address..address + buffer.len()]);
        }
        self.reads_done += 1;
        if let Some((after, writes)) = &self.publish {
            if *after == self.reads_done {
                let mut mem = self.mem.borrow_mut();
                for (a, v) in writes {
                    mem[*a] = *v;
                }
            }
        }
        Ok(())
    }

    fn write_memory(&mut self, address: usize, value: u8) -> Result<(), core::fmt::Error> {
        if let Some(n) = self.writes_left.as_mut() {
            if *n == 0 {
                return Err(core::fmt::Error);
            }
            *n -= 1;
        }
        let mut mem = self.mem.borrow_mut();
        if address >= mem.len() {
            return Err(core::fmt::Error);
        }
        mem[address] = value;
        Ok(())
    }
}

const BASE: usize = 0x40;
const CONSUMER_OFFSET: usize = 5;

/// Memory with the ring buffer's bytes at `BASE`, and junk around them.
fn memory_with<const N: usize>(rb: &RB<N>) -> Memory {
    let mut bytes: Vec<u8> = (0..BASE + 6 + N + 16).map(|i| (i * 7 + 1) as u8).collect();
    let image = rb.to_bytes();
    bytes[BASE..BASE + image.len()].copy_from_slice(&image);
    Rc::new(RefCell::new(bytes))
}

/// Copies the producer's bytes into memory, all but the consumer index,
/// which only the consumer writes.
fn publish<const N: usize>(rb: &RB<N>, mem: &Memory) {
    let image = rb.to_bytes();
    let mut bytes = mem.borrow_mut();
    for (i, b) in image.iter().enumerate() {
        if i != CONSUMER_OFFSET {
            bytes[BASE + i] = *b;
        }
    }
}

/// Sends what fits of `data`, with the consumer index as it lies in memory.
fn send<const N: usize>(rb: &mut RB<N>, mem: &Memory, data: &[u8]) -> usize {
    let consumer = mem.borrow()[BASE + CONSUMER_OFFSET];
    let sent = rb.send_bytes(data, consumer);
    publish(rb, mem);
    sent
}

fn kind(r: Result<Vec<u8>, ConsumerError>) -> ConsumerErrorKind {
    match r {
        Ok(v) => panic!("expected an error, got {:?}", v),
        Err(e) => e.0,
    }
}

fn device(mem: &Memory) -> ProducerDevice<Probe> {
    ProducerDevice::new(Probe::new(mem), BASE).unwrap()
}

fn new_error<M: MemoryReader>(probe: M, address: usize) -> ConsumerErrorKind {
    match ProducerDevice::new(probe, address) {
        Ok(_) => panic!("expected an error at address {:#x}", address),
        Err(e) => e.0,
    }
}

fn send_then_drain<const N: usize>(data: &[u8]) {
    let mut rb = RB::<N>::new();
    let mem = memory_with(&rb);
    assert_eq!(send(&mut rb, &mem, data), data.len());
    let mut dev = device(&mem);
    assert_eq!(dev.read_bytes().unwrap(), data.to_vec());
}

#[test]
fn send_then_drain_returns_the_bytes() {
    send_then_drain::<1>(&[]);
    send_then_drain::<2>(&[0xaa]);
    send_then_drain::<8>(&[1, 2, 3, 4, 5, 6, 7]);
    let long: Vec<u8> = (0..254u32).map(|i| (i * 13 + 5) as u8).collect();
    send_then_drain::<255>(&long);
    send_then_drain::<255>(&long[..100]);
}

#[test]
fn interleaved_send_and_drain_keeps_order() {
    let data: Vec<u8> = (0..40u8).map(|i| i.wrapping_mul(37)).collect();
    let mut rb = RB::<4>::new();
    let mem = memory_with(&rb);
    let mut dev = device(&mem);
    let mut got = Vec::new();
    let mut rest: &[u8] = &data;
    let mut sends = 0;
    while !rest.is_empty() {
        let chunk = &rest[..rest.len().min(2)];
        let sent = send(&mut rb, &mem, chunk);
        rest = &rest[sent..];
        sends += 1;
        if sends % 3 == 0 {
            got.extend(dev.read_bytes().unwrap());
        }
    }
    got.extend(dev.read_bytes().unwrap());
    assert_eq!(got, data);
}

#[test]
fn sending_without_drain_stalls_at_capacity_minus_one() {
    let data = [10u8, 11, 12, 13, 14, 15];
    let mut rb = RB::<4>::new();
    let mem = memory_with(&rb);
    assert_eq!(send(&mut rb, &mem, &data), 3);
    assert_eq!(send(&mut rb, &mem, &data[3..]), 0);
    assert_eq!(send(&mut rb, &mem, &data[3..]), 0);
    let mut dev = device(&mem);
    assert_eq!(dev.read_bytes().unwrap(), vec![10, 11, 12]);
    assert_eq!(send(&mut rb, &mem, &data[3..]), 3);
    assert_eq!(dev.read_bytes().unwrap(), vec![13, 14, 15]);
}

#[test]
fn second_drain_returns_nothing() {
    let mut rb = RB::<6>::new();
    let mem = memory_with(&rb);
    send(&mut rb, &mem, &[9, 8, 7]);
    let mut dev = device(&mem);
    assert_eq!(dev.read_bytes().unwrap(), vec![9, 8, 7]);
    assert_eq!(dev.read_bytes().unwrap(), Vec::<u8>::new());
}

#[test]
fn empty_buffer_drains_to_nothing() {
    let rb = RB::<6>::new();
    let mem = memory_with(&rb);
    let mut dev = device(&mem);
    assert_eq!(dev.read_bytes().unwrap(), Vec::<u8>::new());
}

#[test]
fn magic_marker_not_found_at_wrong_addresses() {
    let rb = RB::<8>::new();
    let mem = memory_with(&rb);
    for address in [0, 1, 7, BASE - 3, BASE - 2, BASE - 1, BASE + 1, BASE + 2, BASE + 6, BASE + 9] {
        assert_eq!(
            new_error(Probe::new(&mem), address),
            ConsumerErrorKind::MagicMarkerNotFound
        );
    }
    assert!(ProducerDevice::new(Probe::new(&mem), BASE).is_ok());
}

#[test]
fn capacity_zero_is_rejected() {
    let rb = RB::<3>::new();
    let mem = memory_with(&rb);
    mem.borrow_mut()[BASE + 3] = 0;
    assert_eq!(new_error(Probe::new(&mem), BASE), ConsumerErrorKind::RingBufferSizeNull);
}

#[test]
fn probe_failure_at_construction_is_a_read_error() {
    let rb = RB::<3>::new();
    let mem = memory_with(&rb);
    let mut probe = Probe::new(&mem);
    probe.reads_left = Some(0);
    assert_eq!(
        new_error(probe, BASE),
        ConsumerErrorKind::ReadMemoryError(core::fmt::Error)
    );
    let mut probe = Probe::new(&mem);
    probe.reads_left = Some(1);
    assert_eq!(
        new_error(probe, BASE),
        ConsumerErrorKind::ReadMemoryError(core::fmt::Error)
    );
    let short: Memory = Rc::new(RefCell::new(vec![0x88, 0x88]));
    assert_eq!(
        new_error(Probe::new(&short), 0),
        ConsumerErrorKind::ReadMemoryError(core::fmt::Error)
    );
}

#[test]
fn capacity_five_indices_wrap() {
    let data: Vec<u8> = (1..=12u8).map(|i| i * 11).collect();
    let mut rb = RB::<5>::new();
    let mem = memory_with(&rb);
    let mut dev = device(&mem);
    let mut got = Vec::new();
    let mut producer_indices = Vec::new();
    for (i, b) in data.iter().enumerate() {
        assert_eq!(send(&mut rb, &mem, &[*b]), 1);
        producer_indices.push(rb.to_bytes()[4]);
        if i % 2 == 1 {
            got.extend(dev.read_bytes().unwrap());
            assert_eq!(mem.borrow()[BASE + CONSUMER_OFFSET], rb.to_bytes()[4]);
        }
    }
    assert_eq!(producer_indices, vec![1, 2, 3, 4, 0, 1, 2, 3, 4, 0, 1, 2]);
    assert_eq!(got, data);
}

#[test]
fn read_failure_mid_drain_keeps_consumer_index() {
    let mut rb = RB::<8>::new();
    let mem = memory_with(&rb);
    let mut dev = device(&mem);
    send(&mut rb, &mem, &[1, 2, 3, 4]);
    assert_eq!(dev.read_bytes().unwrap(), vec![1, 2, 3, 4]);
    send(&mut rb, &mem, &[5, 6, 7, 8]);
    // Construction reads twice; then two index reads and two content reads go
    // through, and the read of the third waiting byte fails.
    let mut probe = Probe::new(&mem);
    probe.reads_left = Some(2 + 2 + 2);
    let mut failing = ProducerDevice::new(probe, BASE).unwrap();
    assert_eq!(
        kind(failing.read_bytes()),
        ConsumerErrorKind::ReadMemoryError(core::fmt::Error)
    );
    // A fresh read sees the index acknowledged past the last byte read.
    assert_eq!(dev.read_one_byte(BASE + CONSUMER_OFFSET).unwrap(), 6);
    assert_eq!(dev.read_bytes().unwrap(), vec![7, 8]);
}

#[test]
fn write_failure_is_a_write_error() {
    let mut rb = RB::<8>::new();
    let mem = memory_with(&rb);
    send(&mut rb, &mem, &[1, 2, 3]);
    let mut probe = Probe::new(&mem);
    probe.writes_left = Some(1);
    let mut dev = ProducerDevice::new(probe, BASE).unwrap();
    assert_eq!(
        kind(dev.read_bytes()),
        ConsumerErrorKind::WriteMemoryError(core::fmt::Error)
    );
    assert_eq!(mem.borrow()[BASE + CONSUMER_OFFSET], 1);
    assert_eq!(device(&mem).read_bytes().unwrap(), vec![2, 3]);
}

#[test]
fn index_outside_the_ring_is_reported() {
    let rb = RB::<8>::new();
    let mem = memory_with(&rb);
    let mut dev = device(&mem);
    mem.borrow_mut()[BASE + 4] = 8;
    assert_eq!(kind(dev.read_bytes()), ConsumerErrorKind::IndexOutOfRange);
    mem.borrow_mut()[BASE + 4] = 0;
    mem.borrow_mut()[BASE + CONSUMER_OFFSET] = 200;
    assert_eq!(kind(dev.read_bytes()), ConsumerErrorKind::IndexOutOfRange);
    assert_eq!(mem.borrow()[BASE + CONSUMER_OFFSET], 200);
    match dev.read_byte() {
        Err(e) => assert_eq!(e, ConsumerError(ConsumerErrorKind::IndexOutOfRange)),
        Ok(v) => panic!("expected an error, got {:?}", v),
    }
}

#[test]
fn read_byte_takes_one_byte_at_a_time() {
    let mut rb = RB::<4>::new();
    let mem = memory_with(&rb);
    let mut dev = device(&mem);
    send(&mut rb, &mem, &[0x41, 0x42, 0x43]);
    assert_eq!(dev.read_byte().unwrap(), Some(0x41));
    assert_eq!(mem.borrow()[BASE + CONSUMER_OFFSET], 1);
    assert_eq!(dev.read_byte().unwrap(), Some(0x42));
    assert_eq!(send(&mut rb, &mem, &[0x44, 0x45, 0x46]), 2);
    assert_eq!(dev.read_byte().unwrap(), Some(0x43));
    assert_eq!(dev.read_bytes().unwrap(), vec![0x44, 0x45]);
    assert_eq!(dev.read_byte().unwrap(), None);
}

#[test]
fn read_one_byte_reads_any_address() {
    let rb = RB::<4>::new();
    let mem = memory_with(&rb);
    let mut dev = device(&mem);
    assert_eq!(dev.read_one_byte(BASE).unwrap(), 0x88);
    assert_eq!(dev.read_one_byte(BASE + 3).unwrap(), 4);
    assert_eq!(dev.read_one_byte(BASE + 6).unwrap(), 0x13);
    assert_eq!(dev.read_one_byte(1).unwrap(), 8);
    assert_eq!(
        dev.read_one_byte(100_000).unwrap_err(),
        ConsumerError(ConsumerErrorKind::ReadMemoryError(core::fmt::Error))
    );
}

#[test]
fn fresh_buffer_layout() {
    let rb = RB::<3>::new();
    assert_eq!(rb.to_bytes(), vec![0x88, 0x88, 0x88, 3, 0, 0, 0x13, 0x13, 0x13]);
    assert_eq!(*rb.consumer_index_slot(), 0);
}

#[test]
fn send_writes_slots_and_moves_producer_index() {
    let mut rb = RB::<3>::new();
    assert_eq!(rb.send_bytes(&[7, 8], 0), 2);
    assert_eq!(rb.to_bytes(), vec![0x88, 0x88, 0x88, 3, 2, 0, 7, 8, 0x13]);
    // With the consumer at slot 1, one more byte fits, in slot 2, and the producer index wraps.
    assert_eq!(rb.send_bytes(&[9, 10], 1), 1);
    assert_eq!(rb.to_bytes(), vec![0x88, 0x88, 0x88, 3, 0, 0, 7, 8, 9]);
    assert_eq!(rb.send_bytes(&[10], 1), 0);
    // With the consumer caught up, two slots are free again.
    assert_eq!(rb.send_bytes(&[10, 11, 12], 0), 2);
    assert_eq!(rb.to_bytes(), vec![0x88, 0x88, 0x88, 3, 2, 0, 10, 11, 9]);
    assert_eq!(rb.send_bytes(&[], 2), 0);
}

#[test]
fn consumer_index_outside_the_ring_takes_nothing() {
    let mut rb = RB::<4>::new();
    assert_eq!(rb.send_bytes(&[1, 2], 4), 0);
    assert_eq!(rb.send_bytes(&[1, 2], 255), 0);
    assert_eq!(rb.to_bytes(), RB::<4>::new().to_bytes());
}

#[test]
fn capacity_one_takes_nothing() {
    let mut rb = RB::<1>::new();
    assert_eq!(rb.send_bytes(&[1], 0), 0);
    assert_eq!(rb.to_bytes(), vec![0x88, 0x88, 0x88, 1, 0, 0, 0x13]);
}

#[test]
fn marker_check_accepts_only_the_marker() {
    assert_eq!(check_marker(&[0x88, 0x88, 0x88]), Ok(()));
    for bad in [[0x88, 0x88, 0x87], [0x00, 0x88, 0x88], [0x88, 0x13, 0x88], [0, 0, 0]] {
        assert_eq!(
            check_marker(&bad),
            Err(ConsumerError(ConsumerErrorKind::MagicMarkerNotFound))
        );
    }
}

#[test]
fn capacity_check_rejects_zero() {
    assert_eq!(
        check_capacity(0),
        Err(ConsumerError(ConsumerErrorKind::RingBufferSizeNull))
    );
    assert_eq!(check_capacity(1), Ok(1));
    assert_eq!(check_capacity(255), Ok(255));
}

#[test]
fn drain_step_decides_each_step() {
    assert_eq!(drain_step(2, 2, 5), Ok(None));
    assert_eq!(drain_step(3, 1, 5), Ok(Some(2)));
    // The index after the last slot is the first one.
    assert_eq!(drain_step(1, 4, 5), Ok(Some(0)));
    assert_eq!(drain_step(0, 0, 1), Ok(None));
    assert_eq!(
        drain_step(5, 0, 5),
        Err(ConsumerError(ConsumerErrorKind::IndexOutOfRange))
    );
    assert_eq!(
        drain_step(0, 9, 5),
        Err(ConsumerError(ConsumerErrorKind::IndexOutOfRange))
    );
}

#[test]
fn memory_block_round_trip() {
    let mut rb = RB::<5>::new();
    assert_eq!(rb.send_bytes(&[21, 22, 23, 24], 0), 4);
    let mut dev = ProducerDevice::new(MemoryBlock::new(rb.to_bytes()), 0).unwrap();
    assert_eq!(dev.read_bytes().unwrap(), vec![21, 22, 23, 24]);
    assert_eq!(dev.read_bytes().unwrap(), Vec::<u8>::new());
    let block = dev.into_memory_reader();
    assert_eq!(block.as_bytes()[CONSUMER_OFFSET], 4);
    assert_eq!(block.as_bytes()[4], 4);
}

#[test]
fn memory_block_rounds_deliver_everything_in_order() {
    let data: Vec<u8> = (0..30u8).map(|i| i ^ 0x5a).collect();
    let mut rb = RB::<4>::new();
    let mut block = MemoryBlock::new(rb.to_bytes());
    let mut got = Vec::new();
    let mut rest: &[u8] = &data;
    while !rest.is_empty() {
        let consumer = block.as_bytes()[CONSUMER_OFFSET];
        let sent = rb.send_bytes(rest, consumer);
        rest = &rest[sent..];
        // The producer's bytes land in memory; the consumer index stays the consumer's.
        for (i, b) in rb.to_bytes().iter().enumerate() {
            if i != CONSUMER_OFFSET {
                block.write_memory(i, *b).unwrap();
            }
        }
        let mut dev = ProducerDevice::new(block, 0).unwrap();
        got.extend(dev.read_bytes().unwrap());
        block = dev.into_memory_reader();
    }
    assert_eq!(got, data);
}

#[test]
fn memory_block_fails_outside_its_bytes() {
    let mut block = MemoryBlock::new(vec![1, 2, 3]);
    let mut buf = [0u8; 2];
    assert_eq!(block.read_memory(1, &mut buf), Ok(()));
    assert_eq!(buf, [2, 3]);
    assert_eq!(block.read_memory(2, &mut buf), Err(core::fmt::Error));
    assert_eq!(block.write_memory(3, 9), Err(core::fmt::Error));
    assert_eq!(block.write_memory(0, 9), Ok(()));
    assert_eq!(block.as_bytes(), &[9, 2, 3]);
    assert!(matches!(
        ProducerDevice::new(MemoryBlock::new(vec![0x88, 0x88]), 0),
        Err(ConsumerError(ConsumerErrorKind::ReadMemoryError(_)))
    ));
}

#[test]
fn bytes_published_during_a_drain_wait_for_the_next() {
    let mut rb = RB::<8>::new();
    let mem = memory_with(&rb);
    send(&mut rb, &mem, &[1, 2, 3]);
    let mut probe = Probe::new(&mem);
    // Construction reads twice; the drain reads both indices and the first
    // waiting byte, then the producer stores 4 and 5 and moves its index to 5.
    probe.publish = Some((2 + 3, vec![(BASE + 6 + 3, 4), (BASE + 6 + 4, 5), (BASE + 4, 5)]));
    let mut dev = ProducerDevice::new(probe, BASE).unwrap();
    assert_eq!(dev.read_bytes().unwrap(), vec![1, 2, 3]);
    assert_eq!(mem.borrow()[BASE + CONSUMER_OFFSET], 3);
    assert_eq!(dev.read_bytes().unwrap(), vec![4, 5]);
    assert_eq!(dev.read_bytes().unwrap(), Vec::<u8>::new());
}

#[test]
fn spin_decision() {
    assert_eq!(next_spin(3, 2, 5), SpinAction::Continue(0));
    assert_eq!(next_spin(0, 2, 5), SpinAction::Continue(3));
    assert_eq!(next_spin(0, 5, 5), SpinAction::GiveUp);
    assert_eq!(next_spin(0, 0, 0), SpinAction::GiveUp);
    assert_eq!(next_spin(1, 0, 0), SpinAction::Continue(0));
}

#[test]
fn wrong_marker_at_the_end_of_memory() {
    let mem: Memory = Rc::new(RefCell::new(vec![0x88, 0x88, 0x11]));
    assert_eq!(new_error(Probe::new(&mem), 0), ConsumerErrorKind::MagicMarkerNotFound);
    let mem: Memory = Rc::new(RefCell::new(vec![0x88, 0x88, 0x88]));
    assert_eq!(
        new_error(Probe::new(&mem), 0),
        ConsumerErrorKind::ReadMemoryError(core::fmt::Error)
    );
}

/// A probe whose memory starts at address `origin`.
struct HighProbe {
    origin: usize,
    bytes: Vec<u8>,
    writes: usize,
}

impl MemoryReader for HighProbe {
    fn read_memory(&mut self, address: usize, buffer: &mut [u8]) -> Result<(), core::fmt::Error> {
        if address < self.origin || address - self.origin + buffer.len() > self.bytes.len() {
            return Err(core::fmt::Error);
        }
        let start = address - self.origin;
        buffer.copy_from_slice(&self.bytes[start..start + buffer.len()]);
        Ok(())
    }

    fn write_memory(&mut self, _address: usize, _value: u8) -> Result<(), core::fmt::Error> {
        self.writes += 1;
        Err(core::fmt::Error)
    }
}

#[test]
fn bases_near_the_top_of_the_address_space() {
    // The structure fits: 6 header bytes and 5 slots end before the top.
    let origin = usize::MAX - 20;
    let probe = HighProbe { origin, bytes: vec![0x88, 0x88, 0x88, 5, 0, 0], writes: 0 };
    assert!(ProducerDevice::new(probe, origin).is_ok());
    // Ten slots from here would run past the end of the address space.
    let origin = usize::MAX - 5;
    let probe = HighProbe { origin, bytes: vec![0x88, 0x88, 0x88, 10], writes: 0 };
    assert_eq!(
        new_error(probe, origin),
        ConsumerErrorKind::ReadMemoryError(core::fmt::Error)
    );
    // The highest base construction admits.
    let origin = usize::MAX - 4;
    let probe = HighProbe { origin, bytes: vec![0x11, 0x88, 0x88], writes: 0 };
    assert_eq!(new_error(probe, origin), ConsumerErrorKind::MagicMarkerNotFound);
}

#[test]
fn construction_never_writes() {
    let mut probe = HighProbe { origin: 0, bytes: vec![0x88, 0x88, 0x88, 4, 0, 0, 1, 2, 3, 4], writes: 0 };
    let header = ramlink::consumer::read_header(&mut probe, 0);
    assert_eq!(header, Ok(4));
    probe.bytes[0] = 0;
    assert_eq!(
        ramlink::consumer::read_header(&mut probe, 0),
        Err(ConsumerError(ConsumerErrorKind::MagicMarkerNotFound))
    );
    probe.bytes[0] = 0x88;
    probe.bytes[3] = 0;
    assert_eq!(
        ramlink::consumer::read_header(&mut probe, 0),
        Err(ConsumerError(ConsumerErrorKind::RingBufferSizeNull))
    );
    assert_eq!(probe.writes, 0);
}
