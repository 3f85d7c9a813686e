use vstd::prelude::*;

use crate::codec::{build_tx, enc_tx, le_bytes_to_u64};
use crate::error::VmError;
use crate::machine::{store_le64, CoreMachine, Mapping, A0, A1, A2, A3, A4, A5, A7};
use crate::tx::Transaction;

verus! {

/// Status written to A0 by a data syscall that mapped its data.
pub const SUCCESS: u8 = 0;

/// Status written to A0 by an ALL-mode data syscall whose caller buffer was
/// too small: the needed length was published and nothing was mapped.
pub const OVERRIDE_LEN: u8 = 1;

/// Ecall number requesting the encoded current transaction.
pub const MMAP_TX_SYSCALL_NUMBER: u64 = 2049;

/// Ecall number requesting a single encoded cell.
pub const MMAP_CELL_SYSCALL_NUMBER: u64 = 2050;

/// Ecall number emitting a host-visible diagnostic string.
pub const DEBUG_PRINT_SYSCALL_NUMBER: u64 = 2051;

/// Mapping mode of a data syscall: the whole dataset, or a caller-chosen
/// byte range.
#[allow(non_camel_case_types)]
#[derive(Debug, PartialEq, Clone, Copy, Eq, Structural)]
pub enum Mode {
    ALL,
    PARTIAL,
}

impl Mode {
    /// Decodes the A2 mode flag: 0 is ALL, 1 is PARTIAL, anything else is a
    /// parse fault.
    pub fn parse_from_flag(flag: u64) -> (r: Result<Mode, VmError>)
        ensures
            match r {
                Ok(m) => (flag == 0 && m == Mode::ALL) || (flag == 1 && m == Mode::PARTIAL),
                Err(e) => e == VmError::ParseError && flag > 1,
            },
    {
        match flag {
            0 => Ok(Mode::ALL),
            1 => Ok(Mode::PARTIAL),
            _ => Err(VmError::ParseError),
        }
    }
}

/// Which cell list a cell data syscall targets.
#[allow(non_camel_case_types)]
#[derive(Debug, PartialEq, Clone, Copy, Eq, Structural)]
pub enum Source {
    INPUT,
    OUTPUT,
}

impl Source {
    /// Decodes the A5 source selector: 0 is INPUT, 1 is OUTPUT, anything
    /// else is a parse fault.
    pub fn parse_from_u64(i: u64) -> (r: Result<Source, VmError>)
        ensures
            match r {
                Ok(s) => (i == 0 && s == Source::INPUT) || (i == 1 && s == Source::OUTPUT),
                Err(e) => e == VmError::ParseError && i > 1,
            },
    {
        match i {
            0 => Ok(Source::INPUT),
            1 => Ok(Source::OUTPUT),
            _ => Err(VmError::ParseError),
        }
    }

    /// The backing-store directory that holds this source's cell blobs.
    pub fn dir_name(&self) -> (r: &'static str)
        ensures
            *self == Source::INPUT ==> r@ == "input"@,
            *self == Source::OUTPUT ==> r@ == "output"@,
    {
        match self {
            Source::INPUT => "input",
            Source::OUTPUT => "output",
        }
    }
}

/// The loaded backing data for one VM run: the current transaction, and the
/// per-cell binary blobs by source and index. Reading it from local storage
/// is the caller's concern; once loaded it is immutable.
pub struct BackingStore {
    pub tx: Transaction,
    pub inputs: Vec<Vec<u8>>,
    pub outputs: Vec<Vec<u8>>,
}

/// Both machines are in the same observable state.
pub open spec fn machine_unchanged(pre: CoreMachine, post: CoreMachine) -> bool {
    &&& post.registers@ == pre.registers@
    &&& post.memory.data@ == pre.memory.data@
    &&& post.memory.buffers_view() == pre.memory.buffers_view()
    &&& post.memory.mappings@ == pre.memory.mappings@
}

/// The full size/offset negotiation contract of a data syscall over dataset
/// `data`, relating the machine before (`pre`) and after (`post`).
///
/// ALL mode with a too-small caller capacity publishes the dataset length in
/// the capacity word, reports OVERRIDE_LEN, and maps nothing; with enough
/// capacity it reports SUCCESS and maps the whole dataset. PARTIAL mode maps
/// `min(capacity, len - offset)` bytes from the requested offset and writes
/// that length back. An offset beyond the dataset's length is a defined
/// memory fault, not wrap-around arithmetic; so is a destination range that
/// would wrap the address space, rejected before anything is written.
pub open spec fn mmap_post(
    pre: CoreMachine,
    post: CoreMachine,
    data: Seq<u8>,
    r: Result<(), VmError>,
) -> bool {
    let dest = pre.registers@[A0 as int];
    let size_addr = pre.registers@[A1 as int];
    let flag = pre.registers@[A2 as int];
    let req_offset = pre.registers@[A3 as int];
    if flag != 0 && flag != 1 {
        r == Err::<(), VmError>(VmError::ParseError) && machine_unchanged(pre, post)
    } else if size_addr + 8 > pre.memory.data@.len() {
        r == Err::<(), VmError>(VmError::MemoryFault) && machine_unchanged(pre, post)
    } else {
        let cap = le_bytes_to_u64(
            pre.memory.data@.subrange(size_addr as int, size_addr as int + 8),
        );
        if flag == 0 {
            if cap < data.len() {
                &&& r is Ok
                &&& post.registers@ == pre.registers@.update(A0 as int, OVERRIDE_LEN as u64)
                &&& post.memory.data@ == store_le64(
                    pre.memory.data@,
                    size_addr as int,
                    data.len() as u64,
                )
                &&& post.memory.buffers_view() == pre.memory.buffers_view()
                &&& post.memory.mappings@ == pre.memory.mappings@
            } else if dest + data.len() > u64::MAX {
                r == Err::<(), VmError>(VmError::MemoryFault) && machine_unchanged(pre, post)
            } else {
                &&& r is Ok
                &&& post.registers@ == pre.registers@.update(A0 as int, SUCCESS as u64)
                &&& post.memory.data@ == pre.memory.data@
                &&& post.memory.buffers_view() == pre.memory.buffers_view().push(data)
                &&& post.memory.mappings@ == pre.memory.mappings@.push(
                    Mapping {
                        addr: dest,
                        size: data.len() as u64,
                        buffer: pre.memory.buffers@.len() as usize,
                        offset: 0,
                    },
                )
                &&& post.memory.mapped_bytes_of(post.memory.mappings@.last()) == data
            }
        } else {
            if req_offset > data.len() {
                r == Err::<(), VmError>(VmError::MemoryFault) && machine_unchanged(pre, post)
            } else {
                let real_size: int = if cap <= data.len() - req_offset {
                    cap as int
                } else {
                    data.len() - req_offset
                };
                if dest + real_size > u64::MAX {
                    r == Err::<(), VmError>(VmError::MemoryFault) && machine_unchanged(pre, post)
                } else {
                    &&& r is Ok
                    &&& post.registers@ == pre.registers@.update(A0 as int, SUCCESS as u64)
                    &&& post.memory.data@ == store_le64(
                        pre.memory.data@,
                        size_addr as int,
                        real_size as u64,
                    )
                    &&& post.memory.buffers_view() == pre.memory.buffers_view().push(data)
                    &&& post.memory.mappings@ == pre.memory.mappings@.push(
                        Mapping {
                            addr: dest,
                            size: real_size as u64,
                            buffer: pre.memory.buffers@.len() as usize,
                            offset: req_offset,
                        },
                    )
                    &&& post.memory.mapped_bytes_of(post.memory.mappings@.last()) == data.subrange(
                        req_offset as int,
                        req_offset + real_size,
                    )
                }
            }
        }
    }
}

/// Runs the size/offset negotiation for dataset `data` against the machine:
/// reads the caller capacity from the word at A1, decides what to map from
/// the A2 mode flag (and, in PARTIAL mode, the A3 offset), writes the
/// negotiated length and the A0 status, and installs the mapping at the
/// virtual address in A0, sharing `data` as the mapping's backing buffer.
pub fn mmap_data(machine: &mut CoreMachine, data: Vec<u8>) -> (r: Result<(), VmError>)
    requires
        old(machine).wf(),
    ensures
        final(machine).wf(),
        mmap_post(*old(machine), *final(machine), data@, r),
{
    let dest = machine.registers[A0];
    let size_addr = machine.registers[A1];
    let flag = machine.registers[A2];
    if flag != 0 && flag != 1 {
        return Err(VmError::ParseError);
    }
    let cap = match machine.memory.load64(size_addr) {
        Ok(v) => v,
        Err(e) => {
            return Err(e);
        },
    };
    let dlen: u64 = data.len() as u64;
    if flag == 0 {
        if cap < dlen {
            let stored = machine.memory.store64(size_addr, dlen);
            match stored {
                Ok(()) => {},
                Err(_) => {
                    assert(false);
                },
            }
            machine.set_register(A0, OVERRIDE_LEN as u64);
            Ok(())
        } else {
            if dest > u64::MAX - dlen {
                return Err(VmError::MemoryFault);
            }
            machine.set_register(A0, SUCCESS as u64);
            let mapped = machine.memory.mmap(dest, dlen, data, 0);
            match mapped {
                Ok(()) => {},
                Err(_) => {
                    assert(false);
                },
            }
            assert(final(machine).memory.mapped_bytes_of(
                final(machine).memory.mappings@.last(),
            ) =~= data@);
            Ok(())
        }
    } else {
        let req_offset = machine.registers[A3];
        if req_offset > dlen {
            return Err(VmError::MemoryFault);
        }
        let remaining: u64 = dlen - req_offset;
        let real_size: u64 = if cap <= remaining {
            cap
        } else {
            remaining
        };
        if dest > u64::MAX - real_size {
            return Err(VmError::MemoryFault);
        }
        let stored = machine.memory.store64(size_addr, real_size);
        match stored {
            Ok(()) => {},
            Err(_) => {
                assert(false);
            },
        }
        machine.set_register(A0, SUCCESS as u64);
        let mapped = machine.memory.mmap(dest, real_size, data, req_offset);
        match mapped {
            Ok(()) => {},
            Err(_) => {
                assert(false);
            },
        }
        Ok(())
    }
}

/// The data syscalls: they serve the encoded current transaction and the
/// per-cell blobs of one backing store to the VM through read-only mappings.
pub struct MmapSyscalls {
    pub path: String,
    pub store: Option<BackingStore>,
}

/// The per-cell blob the store serves for `src` and `index`: an input cell
/// for selector 0, an output cell for selector 1; `None` when no store is
/// loaded or the index is out of range (the backing data is unavailable).
pub open spec fn cell_data(store: Option<BackingStore>, src: u64, index: u64) -> Option<Seq<u8>> {
    match store {
        Option::None => Option::None,
        Option::Some(st) => {
            let list = if src == 0 {
                st.inputs@
            } else {
                st.outputs@
            };
            if index < list.len() {
                Option::Some(list[index as int]@)
            } else {
                Option::None
            }
        },
    }
}

/// Contract of the transaction data syscall: with no store loaded the
/// backing data is unavailable; otherwise the dataset is the deterministic
/// encoding of the store's transaction.
pub open spec fn mmap_tx_post(
    handler: MmapSyscalls,
    pre: CoreMachine,
    post: CoreMachine,
    r: Result<(), VmError>,
) -> bool {
    match handler.store {
        Option::None => r == Err::<(), VmError>(VmError::IoError) && machine_unchanged(pre, post),
        Option::Some(st) => mmap_post(pre, post, enc_tx(st.tx@), r),
    }
}

/// Contract of the cell data syscall: a malformed mode or source selector is
/// a parse fault, an unreadable capacity word is a memory fault, a missing
/// cell blob is an I/O fault, and an available blob goes through the same
/// negotiation as the transaction syscall.
pub open spec fn mmap_cell_post(
    handler: MmapSyscalls,
    pre: CoreMachine,
    post: CoreMachine,
    r: Result<(), VmError>,
) -> bool {
    let flag = pre.registers@[A2 as int];
    let size_addr = pre.registers@[A1 as int];
    let index = pre.registers@[A4 as int];
    let src = pre.registers@[A5 as int];
    if flag != 0 && flag != 1 {
        r == Err::<(), VmError>(VmError::ParseError) && machine_unchanged(pre, post)
    } else if src != 0 && src != 1 {
        r == Err::<(), VmError>(VmError::ParseError) && machine_unchanged(pre, post)
    } else if size_addr + 8 > pre.memory.data@.len() {
        r == Err::<(), VmError>(VmError::MemoryFault) && machine_unchanged(pre, post)
    } else {
        match cell_data(handler.store, src, index) {
            Option::None => r == Err::<(), VmError>(VmError::IoError) && machine_unchanged(
                pre,
                post,
            ),
            Option::Some(bytes) => mmap_post(pre, post, bytes, r),
        }
    }
}

impl MmapSyscalls {
    /// The loaded transaction, if any, is well formed.
    pub open spec fn wf(&self) -> bool {
        match self.store {
            Option::Some(st) => st.tx@.wf(),
            Option::None => true,
        }
    }

    /// A handler rooted at the given backing-store path, with no data loaded
    /// yet.
    pub fn new(path: String) -> (r: MmapSyscalls)
        ensures
            r.path@ == path@,
            r.store is None,
            r.wf(),
    {
        MmapSyscalls { path, store: None }
    }

    /// Installs the loaded backing data this handler serves from.
    pub fn install_store(&mut self, store: BackingStore)
        requires
            store.tx@.wf(),
        ensures
            final(self).path@ == old(self).path@,
            final(self).store == Some(store),
            final(self).wf(),
    {
        self.store = Some(store);
    }

    /// Serves the encoded current transaction (the mmap-transaction
    /// syscall).
    pub fn mmap_tx(&self, machine: &mut CoreMachine) -> (r: Result<(), VmError>)
        requires
            old(machine).wf(),
            self.wf(),
        ensures
            final(machine).wf(),
            mmap_tx_post(*self, *old(machine), *final(machine), r),
    {
        match &self.store {
            None => Err(VmError::IoError),
            Some(st) => {
                let data = build_tx(&st.tx);
                mmap_data(machine, data)
            },
        }
    }

    /// Serves one encoded cell, selected by the A4 index and the A5 source
    /// (the mmap-cell syscall).
    pub fn mmap_cell(&self, machine: &mut CoreMachine) -> (r: Result<(), VmError>)
        requires
            old(machine).wf(),
            self.wf(),
        ensures
            final(machine).wf(),
            mmap_cell_post(*self, *old(machine), *final(machine), r),
    {
        let flag = machine.registers[A2];
        if flag != 0 && flag != 1 {
            return Err(VmError::ParseError);
        }
        let index = machine.registers[A4];
        let source = match Source::parse_from_u64(machine.registers[A5]) {
            Ok(s) => s,
            Err(e) => {
                return Err(e);
            },
        };
        let size_addr = machine.registers[A1];
        let n: usize = machine.memory.data.len();
        if !(n as u64 >= 8 && size_addr <= n as u64 - 8) {
            return Err(VmError::MemoryFault);
        }
        let data = match &self.store {
            None => {
                return Err(VmError::IoError);
            },
            Some(st) => {
                let list = match source {
                    Source::INPUT => &st.inputs,
                    Source::OUTPUT => &st.outputs,
                };
                if index >= list.len() as u64 {
                    return Err(VmError::IoError);
                }
                copy_bytes(&list[index as usize])
            },
        };
        mmap_data(machine, data)
    }

    /// Nothing to set up before the run starts.
    pub fn initialize(&self, machine: &mut CoreMachine) -> (r: Result<(), VmError>)
        ensures
            r is Ok,
            *final(machine) == *old(machine),
    {
        Ok(())
    }

    /// Routes an ecall by the number in A7: the two data syscalls are
    /// handled here; any other number is reported as not handled so that
    /// another provider in the chain can attempt it.
    pub fn ecall(&self, machine: &mut CoreMachine) -> (r: Result<bool, VmError>)
        requires
            old(machine).wf(),
            self.wf(),
        ensures
            final(machine).wf(),
            ({
                let n = old(machine).registers@[A7 as int];
                if n == MMAP_CELL_SYSCALL_NUMBER {
                    match r {
                        Ok(b) => b && mmap_cell_post(
                            *self,
                            *old(machine),
                            *final(machine),
                            Ok(()),
                        ),
                        Err(e) => mmap_cell_post(*self, *old(machine), *final(machine), Err(e)),
                    }
                } else if n == MMAP_TX_SYSCALL_NUMBER {
                    match r {
                        Ok(b) => b && mmap_tx_post(*self, *old(machine), *final(machine), Ok(())),
                        Err(e) => mmap_tx_post(*self, *old(machine), *final(machine), Err(e)),
                    }
                } else {
                    r == Ok::<bool, VmError>(false) && machine_unchanged(
                        *old(machine),
                        *final(machine),
                    )
                }
            }),
    {
        let number = machine.registers[A7];
        if number == MMAP_CELL_SYSCALL_NUMBER {
            match self.mmap_cell(machine) {
                Ok(()) => Ok(true),
                Err(e) => Err(e),
            }
        } else if number == MMAP_TX_SYSCALL_NUMBER {
            match self.mmap_tx(machine) {
                Ok(()) => Ok(true),
                Err(e) => Err(e),
            }
        } else {
            Ok(false)
        }
    }
}

/// A fresh copy of a byte buffer.
fn copy_bytes(src: &Vec<u8>) -> (r: Vec<u8>)
    ensures
        r@ == src@,
{
    let mut out: Vec<u8> = Vec::new();
    let mut i: usize = 0;
    while i < src.len()
        invariant
            i <= src@.len(),
            out@ == src@.take(i as int),
        decreases src@.len() - i,
    {
        out.push(src[i]);
        assert(out@ =~= src@.take(i + 1));
        i = i + 1;
    }
    assert(out@ =~= src@);
    out
}

/// First zero byte at or after `addr`, scanning one byte at a time; `None`
/// when the scan runs off the end of memory.
pub open spec fn first_zero(data: Seq<u8>, addr: int) -> Option<int>
    decreases data.len() - addr,
{
    if addr < 0 || addr >= data.len() {
        Option::None
    } else if data[addr] == 0 {
        Option::Some(addr)
    } else {
        first_zero(data, addr + 1)
    }
}

/// The debug syscall: reads a null-terminated byte string from VM memory
/// and forwards it, without the terminator, to the host-side diagnostic
/// sink this handler accumulates. How the host renders the bytes is its own
/// choice; malformed text never fails the VM here.
pub struct DebugSyscalls {
    pub messages: Vec<Vec<u8>>,
}

impl DebugSyscalls {
    /// The diagnostic sink's contents, as byte sequences.
    pub open spec fn messages_view(&self) -> Seq<Seq<u8>> {
        self.messages@.map_values(|m: Vec<u8>| m@)
    }

    /// A handler with an empty diagnostic sink.
    pub fn new() -> (r: DebugSyscalls)
        ensures
            r.messages_view() == Seq::<Seq<u8>>::empty(),
    {
        let r = DebugSyscalls { messages: Vec::new() };
        assert(r.messages_view() =~= Seq::<Seq<u8>>::empty());
        r
    }

    /// Nothing to set up before the run starts.
    pub fn initialize(&self, machine: &mut CoreMachine) -> (r: Result<(), VmError>)
        ensures
            r is Ok,
            *final(machine) == *old(machine),
    {
        Ok(())
    }

    /// Handles the debug-print ecall: scans VM memory from the address in
    /// A0 up to the first zero byte and appends the scanned bytes to the
    /// sink. Any other ecall number is reported as not handled. A scan that
    /// runs off the end of memory propagates the memory fault.
    pub fn ecall(&mut self, machine: &CoreMachine) -> (r: Result<bool, VmError>)
        requires
            machine.wf(),
        ensures
            ({
                let n = machine.registers@[A7 as int];
                let a = machine.registers@[A0 as int];
                let sink_pre = old(self).messages_view();
                let sink_post = final(self).messages_view();
                if n != DEBUG_PRINT_SYSCALL_NUMBER {
                    r == Ok::<bool, VmError>(false) && sink_post == sink_pre
                } else {
                    match first_zero(machine.memory.data@, a as int) {
                        Option::Some(z) => r == Ok::<bool, VmError>(true) && sink_post
                            == sink_pre.push(machine.memory.data@.subrange(a as int, z)),
                        Option::None => r == Err::<bool, VmError>(VmError::MemoryFault) && sink_post
                            == sink_pre,
                    }
                }
            }),
    {
        let number = machine.registers[A7];
        if number != DEBUG_PRINT_SYSCALL_NUMBER {
            return Ok(false);
        }

        let start = machine.registers[A0];
        let n: usize = machine.memory.data.len();
        if start >= n as u64 {
            return Err(VmError::MemoryFault);
        }
        let mut addr = start;
        let mut buffer: Vec<u8> = Vec::new();

        loop
            invariant
                machine.wf(),
                machine.registers@[A7 as int] == DEBUG_PRINT_SYSCALL_NUMBER,
                start == machine.registers@[A0 as int],
                machine.memory.data@.len() == n,
                start <= addr,
                addr <= machine.memory.data@.len(),
                buffer@ == machine.memory.data@.subrange(start as int, addr as int),
                first_zero(machine.memory.data@, start as int) == first_zero(
                    machine.memory.data@,
                    addr as int,
                ),
                self.messages@ == old(self).messages@,
            ensures
                addr < machine.memory.data@.len(),
                machine.memory.data@[addr as int] == 0,
                first_zero(machine.memory.data@, start as int) == Some(addr as int),
                buffer@ == machine.memory.data@.subrange(start as int, addr as int),
                self.messages@ == old(self).messages@,
            decreases machine.memory.data@.len() - addr,
        {
            let byte = match machine.memory.load8(addr) {
                Ok(b) => b,
                Err(e) => {
                    proof {
                        assert(addr == machine.memory.data@.len());
                        assert(first_zero(machine.memory.data@, addr as int) is None);
                    }
                    return Err(e);
                },
            };
            if byte == 0 {
                break ;
            }
            buffer.push(byte);
            assert(buffer@ =~= machine.memory.data@.subrange(start as int, addr as int + 1));
            addr = addr + 1;
        }

        self.messages.push(buffer);
        proof {
            assert(self.messages_view() =~= old(self).messages_view().push(
                machine.memory.data@.subrange(start as int, addr as int),
            ));
        }
        Ok(true)
    }
}

} // verus!
