//! A block of memory in this process, used as a probe: bytes at addresses 0
//! up to the block's length, read and written in place. It stands in for a
//! debug probe in tests, or serves a copy of the producer's memory.
use vstd::prelude::*;

use crate::consumer::{Access, MemoryReader};

verus! {

/// Relies on `<core::fmt::Error as Default>::default`, which returns the
/// error value; nothing is assumed of it.
pub assume_specification[ <core::fmt::Error as core::default::Default>::default ]() -> core::fmt::Error;

/// A block of memory that never fails on its own bytes, and fails on any
/// address outside them.
pub struct MemoryBlock {
    /// The bytes, byte `a` at address `a`.
    bytes: Vec<u8>,
    /// Every call made on the block so far, with its outcome.
    log: Ghost<Seq<Access>>,
}

impl MemoryBlock {
    /// A block that holds `bytes`, with no call made on it yet.
    pub fn new(bytes: Vec<u8>) -> (r: MemoryBlock)
        ensures
            r.memory() == bytes@,
            r.accesses() == Seq::<Access>::empty(),
            r.reliable(),
    {
        MemoryBlock { bytes, log: Ghost(Seq::empty()) }
    }

    /// The bytes of the block.
    pub fn as_bytes(&self) -> (r: &[u8])
        ensures
            r@ == self.memory(),
    {
        self.bytes.as_slice()
    }
}

impl MemoryReader for MemoryBlock {
    closed spec fn memory(&self) -> Seq<u8> {
        self.bytes@
    }

    closed spec fn accesses(&self) -> Seq<Access> {
        self.log@
    }

    closed spec fn reliable(&self) -> bool {
        true
    }

    fn read_memory(&mut self, address: usize, buffer: &mut [u8]) -> (r: Result<(), core::fmt::Error>) {
        if address > self.bytes.len() || buffer.len() > self.bytes.len() - address {
            self.log = Ghost(
                self.log@.push(Access::Read { address, len: buffer@.len() as usize, ok: false }),
            );
            return Err(core::fmt::Error::default());
        }
        let mut i: usize = 0;
        while i < buffer.len()
            invariant
                0 <= i <= buffer@.len(),
                address + buffer@.len() <= self.bytes@.len(),
                self.bytes@.len() <= usize::MAX,
                buffer@.len() == old(buffer)@.len(),
                self.bytes@ == old(self).bytes@,
                self.log@ == old(self).log@,
                forall|j: int| 0 <= j < i ==> buffer@[j] == self.bytes@[address + j],
            decreases buffer@.len() - i,
        {
            buffer[i] = self.bytes[address + i];
            i = i + 1;
        }
        assert(buffer@ =~= self.bytes@.subrange(address as int, address + buffer@.len()));
        self.log = Ghost(
            self.log@.push(Access::Read { address, len: buffer@.len() as usize, ok: true }),
        );
        Ok(())
    }

    fn write_memory(&mut self, address: usize, value: u8) -> (r: Result<(), core::fmt::Error>) {
        if address >= self.bytes.len() {
            self.log = Ghost(self.log@.push(Access::Write { address, value, ok: false }));
            return Err(core::fmt::Error::default());
        }
        self.bytes.set(address, value);
        self.log = Ghost(self.log@.push(Access::Write { address, value, ok: true }));
        Ok(())
    }
}

} // verus!
