use vstd::prelude::*;

use crate::codec::{le_bytes_to_u64, read_u64_le, u64_le_bytes};
use crate::error::VmError;

verus! {

// Registers A0 through A7 of the syscall calling convention, by their index
// in the general-purpose register file.
pub const A0: usize = 10;

pub const A1: usize = 11;

pub const A2: usize = 12;

pub const A3: usize = 13;

pub const A4: usize = 14;

pub const A5: usize = 15;

pub const A6: usize = 16;

pub const A7: usize = 17;

/// Number of general-purpose registers in the register file.
pub const REGISTER_COUNT: usize = 32;

/// A read-only mapping: `size` bytes of the backing buffer `buffer`
/// (an index into the memory's buffer arena), starting at `offset` within
/// that buffer, visible at virtual address `addr`.
pub struct Mapping {
    pub addr: u64,
    pub size: u64,
    pub buffer: usize,
    pub offset: u64,
}

/// Addressable VM memory: flat load/store storage, plus read-only mappings
/// backed by shared immutable buffers. Buffers live in an arena so that
/// several mappings can share one buffer without copying; the arena owns
/// each buffer for the rest of the run, so every mapping outlives nothing.
pub struct Memory {
    pub data: Vec<u8>,
    pub buffers: Vec<Vec<u8>>,
    pub mappings: Vec<Mapping>,
}

impl Memory {
    /// Contents of the buffer arena, as byte sequences.
    pub open spec fn buffers_view(&self) -> Seq<Seq<u8>> {
        self.buffers@.map_values(|b: Vec<u8>| b@)
    }

    /// A mapping never exceeds its backing buffer's bounds after offset
    /// adjustment, and never wraps the address space.
    pub open spec fn mapping_wf(&self, m: Mapping) -> bool {
        &&& m.buffer < self.buffers@.len()
        &&& m.offset + m.size <= self.buffers_view()[m.buffer as int].len()
        &&& m.addr + m.size <= u64::MAX
    }

    pub open spec fn wf(&self) -> bool {
        forall|i: int| 0 <= i < self.mappings@.len() ==> self.mapping_wf(#[trigger] self.mappings@[i])
    }

    /// The bytes a mapping exposes, read from its backing buffer.
    pub open spec fn mapped_bytes_of(&self, m: Mapping) -> Seq<u8>
        recommends
            self.mapping_wf(m),
    {
        self.buffers_view()[m.buffer as int].subrange(m.offset as int, m.offset + m.size)
    }

    /// The byte visible at `addr` through the installed mappings, most
    /// recently installed first; `None` when no mapping covers `addr`.
    pub open spec fn mapped_byte(&self, addr: u64) -> Option<u8> {
        mapped_byte_in(self.mappings@, self.buffers_view(), addr)
    }

    /// Fresh zeroed memory with no buffers and no mappings.
    pub fn new(size: usize) -> (r: Memory)
        ensures
            r.wf(),
            r.data@ == Seq::<u8>::new(size as nat, |i: int| 0u8),
            r.buffers@.len() == 0,
            r.mappings@.len() == 0,
    {
        let mut data: Vec<u8> = Vec::new();
        let mut i: usize = 0;
        while i < size
            invariant
                i <= size,
                data@ == Seq::<u8>::new(i as nat, |k: int| 0u8),
            decreases size - i,
        {
            data.push(0);
            assert(data@ =~= Seq::<u8>::new((i + 1) as nat, |k: int| 0u8));
            i = i + 1;
        }
        Memory { data, buffers: Vec::new(), mappings: Vec::new() }
    }

    /// Loads the byte at `addr` from flat storage.
    pub fn load8(&self, addr: u64) -> (r: Result<u8, VmError>)
        ensures
            match r {
                Ok(b) => addr < self.data@.len() && b == self.data@[addr as int],
                Err(e) => e == VmError::MemoryFault && addr >= self.data@.len(),
            },
    {
        let n: usize = self.data.len();
        if addr < n as u64 {
            Ok(self.data[addr as usize])
        } else {
            Err(VmError::MemoryFault)
        }
    }

    /// Loads the little-endian 64-bit word at `addr` from flat storage.
    pub fn load64(&self, addr: u64) -> (r: Result<u64, VmError>)
        ensures
            match r {
                Ok(v) => addr + 8 <= self.data@.len() && v == le_bytes_to_u64(
                    self.data@.subrange(addr as int, addr as int + 8),
                ),
                Err(e) => e == VmError::MemoryFault && addr + 8 > self.data@.len(),
            },
    {
        let n: usize = self.data.len();
        if n as u64 >= 8 && addr <= n as u64 - 8 {
            Ok(read_u64_le(&self.data, addr as usize))
        } else {
            Err(VmError::MemoryFault)
        }
    }

    /// Stores `v` as a little-endian 64-bit word at `addr` in flat storage.
    pub fn store64(&mut self, addr: u64, v: u64) -> (r: Result<(), VmError>)
        ensures
            match r {
                Ok(()) => {
                    &&& addr + 8 <= old(self).data@.len()
                    &&& final(self).data@ == store_le64(old(self).data@, addr as int, v)
                },
                Err(e) => {
                    &&& e == VmError::MemoryFault
                    &&& addr + 8 > old(self).data@.len()
                    &&& final(self).data@ == old(self).data@
                },
            },
            final(self).buffers@ == old(self).buffers@,
            final(self).mappings@ == old(self).mappings@,
    {
        let n: usize = self.data.len();
        if n as u64 >= 8 && addr <= n as u64 - 8 {
            let base = addr as usize;
            assert(base + 8 <= self.data@.len());
            self.data.set(base, (v & 0xff) as u8);
            self.data.set(base + 1, ((v >> 8) & 0xff) as u8);
            self.data.set(base + 2, ((v >> 16) & 0xff) as u8);
            self.data.set(base + 3, ((v >> 24) & 0xff) as u8);
            self.data.set(base + 4, ((v >> 32) & 0xff) as u8);
            self.data.set(base + 5, ((v >> 40) & 0xff) as u8);
            self.data.set(base + 6, ((v >> 48) & 0xff) as u8);
            self.data.set(base + 7, ((v >> 56) & 0xff) as u8);
            assert(self.data@ =~= store_le64(old(self).data@, addr as int, v));
            Ok(())
        } else {
            Err(VmError::MemoryFault)
        }
    }

    /// Installs a read-only mapping of `size` bytes of `buffer`, starting at
    /// `offset` within it, at virtual address `addr`. The buffer joins the
    /// arena and is shared, never copied, from then on. A range that would
    /// exceed the buffer's bounds is rejected, not truncated.
    pub fn mmap(&mut self, addr: u64, size: u64, buffer: Vec<u8>, offset: u64) -> (r: Result<
        (),
        VmError,
    >)
        requires
            old(self).wf(),
        ensures
            final(self).wf(),
            final(self).data@ == old(self).data@,
            match r {
                Ok(()) => {
                    &&& offset + size <= buffer@.len()
                    &&& addr + size <= u64::MAX
                    &&& final(self).buffers_view() == old(self).buffers_view().push(buffer@)
                    &&& final(self).mappings@ == old(self).mappings@.push(
                        Mapping {
                            addr,
                            size,
                            buffer: old(self).buffers@.len() as usize,
                            offset,
                        },
                    )
                    &&& final(self).mapped_bytes_of(final(self).mappings@.last())
                        == buffer@.subrange(offset as int, offset + size)
                },
                Err(e) => {
                    &&& e == VmError::MemoryFault
                    &&& (offset + size > buffer@.len() || addr + size > u64::MAX)
                    &&& final(self).buffers@ == old(self).buffers@
                    &&& final(self).mappings@ == old(self).mappings@
                },
            },
    {
        let blen: usize = buffer.len();
        if offset <= blen as u64 && size <= blen as u64 - offset && addr <= u64::MAX - size {
            let idx: usize = self.buffers.len();
            self.buffers.push(buffer);
            let m = Mapping { addr, size, buffer: idx, offset };
            self.mappings.push(m);
            proof {
                assert(self.buffers_view() =~= old(self).buffers_view().push(buffer@));
                assert(self.buffers_view()[idx as int] == buffer@);
                assert forall|i: int| 0 <= i < self.mappings@.len() implies self.mapping_wf(
                    #[trigger] self.mappings@[i],
                ) by {
                    if i < self.mappings@.len() - 1 {
                        assert(old(self).mapping_wf(old(self).mappings@[i]));
                    }
                }
            }
            Ok(())
        } else {
            Err(VmError::MemoryFault)
        }
    }

    /// Reads the byte visible at `addr` through the installed mappings.
    /// An address no mapping covers faults: memory adjacent to a mapped
    /// range is never silently exposed.
    pub fn read_mapped(&self, addr: u64) -> (r: Result<u8, VmError>)
        requires
            self.wf(),
        ensures
            match r {
                Ok(b) => self.mapped_byte(addr) == Some(b),
                Err(e) => e == VmError::MemoryFault && self.mapped_byte(addr) is None,
            },
    {
        let mut i: usize = self.mappings.len();
        assert(self.mappings@.take(self.mappings@.len() as int) =~= self.mappings@);
        while i > 0
            invariant
                self.wf(),
                i <= self.mappings@.len(),
                mapped_byte_in(self.mappings@.take(i as int), self.buffers_view(), addr)
                    == self.mapped_byte(addr),
            decreases i,
        {
            i = i - 1;
            let m = &self.mappings[i];
            if m.addr <= addr && addr - m.addr < m.size {
                assert(self.mapping_wf(self.mappings@[i as int]));
                let buf = &self.buffers[m.buffer];
                let blen: usize = buf.len();
                assert(m.offset + m.size <= blen);
                let pos = addr - m.addr + m.offset;
                assert(pos < blen);
                let b = buf[pos as usize];
                proof {
                    let taken = self.mappings@.take(i as int + 1);
                    assert(taken.last() == self.mappings@[i as int]);
                    assert(self.buffers_view()[m.buffer as int] == buf@);
                    assert(mapped_byte_in(taken, self.buffers_view(), addr) == Some(b));
                }
                return Ok(b);
            }
            proof {
                let taken = self.mappings@.take(i as int + 1);
                assert(taken.last() == self.mappings@[i as int]);
                assert(taken.drop_last() =~= self.mappings@.take(i as int));
            }
        }
        assert(self.mappings@.take(0).len() == 0);
        Err(VmError::MemoryFault)
    }
}

/// The byte visible at `addr` through `mappings` over the buffer arena
/// `buffers`, most recently installed mapping first; `None` when no mapping
/// covers `addr`.
pub open spec fn mapped_byte_in(mappings: Seq<Mapping>, buffers: Seq<Seq<u8>>, addr: u64) -> Option<
    u8,
>
    decreases mappings.len(),
{
    if mappings.len() == 0 {
        None
    } else {
        let m = mappings.last();
        if m.addr <= addr < m.addr + m.size {
            Some(buffers[m.buffer as int][addr - m.addr + m.offset])
        } else {
            mapped_byte_in(mappings.drop_last(), buffers, addr)
        }
    }
}

/// Flat storage after a little-endian 64-bit store of `v` at `addr`.
pub open spec fn store_le64(s: Seq<u8>, addr: int, v: u64) -> Seq<u8> {
    s.map(|i: int, b: u8| if addr <= i < addr + 8 { u64_le_bytes(v)[i - addr] } else { b })
}

/// The mutable per-run VM context the syscall handlers touch: the register
/// file and the addressable memory. Its lifetime is exactly one VM run.
pub struct CoreMachine {
    pub registers: Vec<u64>,
    pub memory: Memory,
}

impl CoreMachine {
    pub open spec fn wf(&self) -> bool {
        &&& self.registers@.len() == REGISTER_COUNT
        &&& self.memory.wf()
    }

    /// A fresh machine: all registers zero, `mem_size` bytes of zeroed
    /// memory, no buffers, no mappings.
    pub fn new(mem_size: usize) -> (r: CoreMachine)
        ensures
            r.wf(),
            r.registers@ == Seq::<u64>::new(REGISTER_COUNT as nat, |i: int| 0u64),
            r.memory.data@ == Seq::<u8>::new(mem_size as nat, |i: int| 0u8),
            r.memory.buffers@.len() == 0,
            r.memory.mappings@.len() == 0,
    {
        let mut registers: Vec<u64> = Vec::new();
        let mut i: usize = 0;
        while i < REGISTER_COUNT
            invariant
                i <= REGISTER_COUNT,
                registers@ == Seq::<u64>::new(i as nat, |k: int| 0u64),
            decreases REGISTER_COUNT - i,
        {
            registers.push(0);
            assert(registers@ =~= Seq::<u64>::new((i + 1) as nat, |k: int| 0u64));
            i = i + 1;
        }
        CoreMachine { registers, memory: Memory::new(mem_size) }
    }

    /// Writes one register.
    pub fn set_register(&mut self, i: usize, v: u64)
        requires
            i < old(self).registers@.len(),
        ensures
            final(self).registers@ == old(self).registers@.update(i as int, v),
            final(self).memory == old(self).memory,
    {
        self.registers.set(i, v);
    }
}

} // verus!
