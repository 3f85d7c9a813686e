use ckb_debugger::codec::build_tx;
use ckb_debugger::error::VmError;
use ckb_debugger::machine::{CoreMachine, A0, A1, A2, A3, A4, A5, A7};
use ckb_debugger::syscalls::{
    mmap_data, BackingStore, DebugSyscalls, MmapSyscalls, Mode, Source, DEBUG_PRINT_SYSCALL_NUMBER,
    MMAP_CELL_SYSCALL_NUMBER, MMAP_TX_SYSCALL_NUMBER, OVERRIDE_LEN, SUCCESS,
};
use ckb_debugger::tx::{CellInput, CellOutput, Hash256, OutPoint, Transaction};

const MEM: usize = 4096;
const DEST: u64 = 0x400;
const SIZE_ADDR: u64 = 0x100;

fn machine_with_cap(cap: u64) -> CoreMachine {
    let mut m = CoreMachine::new(MEM);
    m.registers[A0] = DEST;
    m.registers[A1] = SIZE_ADDR;
    assert!(m.memory.store64(SIZE_ADDR, cap).is_ok());
    m
}

fn mapped_range(m: &CoreMachine, addr: u64, len: u64) -> Vec<u8> {
    let mut out = Vec::new();
    for i in 0..len {
        out.push(m.memory.read_mapped(addr + i).expect("the byte must be mapped"));
    }
    out
}

fn store_with_tx() -> BackingStore {
    let tx = Transaction {
        version: 7,
        deps: vec![OutPoint { hash: Hash256 { bytes: vec![0x11; 32] }, index: 3 }],
        inputs: vec![CellInput {
            previous_output: OutPoint { hash: Hash256 { bytes: vec![0x22; 32] }, index: 0 },
        }],
        outputs: vec![CellOutput { capacity: 100, lock: vec![0xAA] }],
    };
    BackingStore { tx, inputs: vec![vec![1, 2, 3]], outputs: vec![vec![9, 8, 7, 6]] }
}

#[test]
fn mode_parses_flags() {
    assert_eq!(Mode::parse_from_flag(0), Ok(Mode::ALL));
    assert_eq!(Mode::parse_from_flag(1), Ok(Mode::PARTIAL));
    assert_eq!(Mode::parse_from_flag(2), Err(VmError::ParseError));
}

#[test]
fn source_parses_selectors() {
    assert_eq!(Source::parse_from_u64(0), Ok(Source::INPUT));
    assert_eq!(Source::parse_from_u64(1), Ok(Source::OUTPUT));
    assert_eq!(Source::parse_from_u64(7), Err(VmError::ParseError));
}

#[test]
fn source_directory_names() {
    assert_eq!(Source::INPUT.dir_name(), "input");
    assert_eq!(Source::OUTPUT.dir_name(), "output");
}

#[test]
fn all_mode_small_capacity_publishes_length_and_maps_nothing() {
    let data: Vec<u8> = (0u8..100).collect();
    let mut m = machine_with_cap(10);
    m.registers[A2] = 0; // ALL
    assert!(mmap_data(&mut m, data).is_ok());
    assert_eq!(m.registers[A0], OVERRIDE_LEN as u64);
    assert_eq!(m.memory.load64(SIZE_ADDR).unwrap(), 100);
    assert!(m.memory.mappings.is_empty());
    assert!(m.memory.read_mapped(DEST).is_err());
}

#[test]
fn all_mode_large_capacity_maps_everything() {
    let data: Vec<u8> = (0u8..100).collect();
    let mut m = machine_with_cap(100);
    m.registers[A2] = 0; // ALL
    assert!(mmap_data(&mut m, data.clone()).is_ok());
    assert_eq!(m.registers[A0], SUCCESS as u64);
    // capacity word untouched in the success branch
    assert_eq!(m.memory.load64(SIZE_ADDR).unwrap(), 100);
    assert_eq!(mapped_range(&m, DEST, 100), data);
}

#[test]
fn partial_mode_maps_requested_window() {
    let data: Vec<u8> = (0u8..100).collect();
    let mut m = machine_with_cap(16);
    m.registers[A2] = 1; // PARTIAL
    m.registers[A3] = 30;
    assert!(mmap_data(&mut m, data.clone()).is_ok());
    assert_eq!(m.registers[A0], SUCCESS as u64);
    // real size = min(cap, len - offset) = min(16, 70)
    assert_eq!(m.memory.load64(SIZE_ADDR).unwrap(), 16);
    assert_eq!(mapped_range(&m, DEST, 16), data[30..46].to_vec());
}

#[test]
fn partial_mode_clamps_to_remaining_bytes() {
    let data: Vec<u8> = (0u8..100).collect();
    let mut m = machine_with_cap(1000);
    m.registers[A2] = 1;
    m.registers[A3] = 90;
    assert!(mmap_data(&mut m, data.clone()).is_ok());
    // real size = min(1000, 10)
    assert_eq!(m.memory.load64(SIZE_ADDR).unwrap(), 10);
    assert_eq!(mapped_range(&m, DEST, 10), data[90..].to_vec());
}

#[test]
fn partial_mode_offset_at_length_maps_zero_bytes() {
    let data: Vec<u8> = (0u8..50).collect();
    let mut m = machine_with_cap(8);
    m.registers[A2] = 1;
    m.registers[A3] = 50;
    assert!(mmap_data(&mut m, data).is_ok());
    assert_eq!(m.memory.load64(SIZE_ADDR).unwrap(), 0);
}

#[test]
fn partial_mode_offset_past_length_faults() {
    let data: Vec<u8> = (0u8..50).collect();
    let mut m = machine_with_cap(8);
    m.registers[A2] = 1;
    m.registers[A3] = 51;
    assert_eq!(mmap_data(&mut m, data), Err(VmError::MemoryFault));
    assert!(m.memory.mappings.is_empty());
}

#[test]
fn bad_mode_flag_faults() {
    let mut m = machine_with_cap(8);
    m.registers[A2] = 2;
    assert_eq!(mmap_data(&mut m, vec![1, 2, 3]), Err(VmError::ParseError));
}

#[test]
fn unreadable_capacity_word_faults() {
    let mut m = CoreMachine::new(MEM);
    m.registers[A1] = MEM as u64 - 4; // the word would cross the end
    m.registers[A2] = 0;
    assert_eq!(mmap_data(&mut m, vec![1]), Err(VmError::MemoryFault));
}

#[test]
fn mmap_tx_without_store_is_io_error() {
    let handler = MmapSyscalls::new(String::from("fixtures"));
    let mut m = machine_with_cap(4096);
    m.registers[A2] = 0;
    assert_eq!(handler.mmap_tx(&mut m), Err(VmError::IoError));
}

#[test]
fn mmap_cell_serves_output_blob() {
    let mut handler = MmapSyscalls::new(String::from("fixtures"));
    handler.install_store(store_with_tx());
    let mut m = machine_with_cap(4096);
    m.registers[A2] = 0; // ALL
    m.registers[A4] = 0; // index
    m.registers[A5] = 1; // OUTPUT
    assert!(handler.mmap_cell(&mut m).is_ok());
    assert_eq!(m.registers[A0], SUCCESS as u64);
    assert_eq!(mapped_range(&m, DEST, 4), vec![9, 8, 7, 6]);
}

#[test]
fn mmap_cell_serves_input_blob() {
    let mut handler = MmapSyscalls::new(String::from("fixtures"));
    handler.install_store(store_with_tx());
    let mut m = machine_with_cap(4096);
    m.registers[A2] = 0;
    m.registers[A4] = 0;
    m.registers[A5] = 0; // INPUT
    assert!(handler.mmap_cell(&mut m).is_ok());
    assert_eq!(mapped_range(&m, DEST, 3), vec![1, 2, 3]);
}

#[test]
fn mmap_cell_bad_source_faults() {
    let mut handler = MmapSyscalls::new(String::from("fixtures"));
    handler.install_store(store_with_tx());
    let mut m = machine_with_cap(4096);
    m.registers[A2] = 0;
    m.registers[A5] = 2;
    assert_eq!(handler.mmap_cell(&mut m), Err(VmError::ParseError));
}

#[test]
fn mmap_cell_missing_index_is_io_error() {
    let mut handler = MmapSyscalls::new(String::from("fixtures"));
    handler.install_store(store_with_tx());
    let mut m = machine_with_cap(4096);
    m.registers[A2] = 0;
    m.registers[A4] = 5; // no such cell
    m.registers[A5] = 1;
    assert_eq!(handler.mmap_cell(&mut m), Err(VmError::IoError));
}

#[test]
fn ecall_ignores_unknown_numbers() {
    let handler = MmapSyscalls::new(String::from("fixtures"));
    let mut m = CoreMachine::new(MEM);
    m.registers[A7] = 9999;
    assert_eq!(handler.ecall(&mut m), Ok(false));
}

#[test]
fn end_to_end_all_mode_exposes_encoded_records() {
    let store = store_with_tx();
    let expected = build_tx(&store.tx);

    let mut handler = MmapSyscalls::new(String::from("fixtures"));
    handler.install_store(store);
    let mut m = machine_with_cap(4096);
    m.registers[A2] = 0; // ALL
    m.registers[A7] = MMAP_TX_SYSCALL_NUMBER;
    assert_eq!(handler.ecall(&mut m), Ok(true));
    assert_eq!(m.registers[A0], SUCCESS as u64);

    let mapped = mapped_range(&m, DEST, expected.len() as u64);
    assert_eq!(mapped, expected);

    let back = ckb_debugger::codec::decode_tx(&mapped).expect("mapped bytes must decode");
    assert_eq!(back.deps.len(), 1);
    assert_eq!(back.inputs.len(), 1);
    assert_eq!(back.inputs[0].previous_output.hash.bytes, vec![0x22u8; 32]);
    assert_eq!(back.inputs[0].previous_output.index, 0);
    assert_eq!(back.outputs.len(), 1);
    assert_eq!(back.outputs[0].capacity, 100);
    assert_eq!(back.outputs[0].lock, vec![0xAA]);
}

#[test]
fn end_to_end_probe_then_retry() {
    let store = store_with_tx();
    let expected = build_tx(&store.tx);

    let mut handler = MmapSyscalls::new(String::from("fixtures"));
    handler.install_store(store);
    let mut m = machine_with_cap(1); // deliberately too small
    m.registers[A2] = 0;
    m.registers[A7] = MMAP_TX_SYSCALL_NUMBER;
    assert_eq!(handler.ecall(&mut m), Ok(true));
    assert_eq!(m.registers[A0], OVERRIDE_LEN as u64);
    let published = m.memory.load64(SIZE_ADDR).unwrap();
    assert_eq!(published, expected.len() as u64);
    assert!(m.memory.mappings.is_empty());

    // retry with the published size: now it maps
    assert!(m.memory.store64(SIZE_ADDR, published).is_ok());
    m.registers[A0] = DEST;
    assert_eq!(handler.ecall(&mut m), Ok(true));
    assert_eq!(m.registers[A0], SUCCESS as u64);
    assert_eq!(mapped_range(&m, DEST, published), expected);
}

#[test]
fn mmap_cell_ecall_number_routes() {
    let mut handler = MmapSyscalls::new(String::from("fixtures"));
    handler.install_store(store_with_tx());
    let mut m = machine_with_cap(4096);
    m.registers[A2] = 0;
    m.registers[A4] = 0;
    m.registers[A5] = 1;
    m.registers[A7] = MMAP_CELL_SYSCALL_NUMBER;
    assert_eq!(handler.ecall(&mut m), Ok(true));
    assert_eq!(mapped_range(&m, DEST, 4), vec![9, 8, 7, 6]);
}

#[test]
fn debug_syscall_forwards_string_without_terminator() {
    let mut m = CoreMachine::new(MEM);
    let msg = b"hello";
    for (i, b) in msg.iter().enumerate() {
        m.memory.data[200 + i] = *b;
    }
    m.memory.data[205] = 0;
    m.registers[A0] = 200;
    m.registers[A7] = DEBUG_PRINT_SYSCALL_NUMBER;

    let mut handler = DebugSyscalls::new();
    assert_eq!(handler.ecall(&m), Ok(true));
    assert_eq!(handler.messages.len(), 1);
    assert_eq!(handler.messages[0], b"hello".to_vec());
}

#[test]
fn debug_syscall_ignores_other_numbers() {
    let m = CoreMachine::new(MEM);
    let mut handler = DebugSyscalls::new();
    assert_eq!(handler.ecall(&m), Ok(false));
    assert!(handler.messages.is_empty());
}

#[test]
fn debug_syscall_unterminated_string_faults() {
    let mut m = CoreMachine::new(MEM);
    for i in 300..MEM {
        m.memory.data[i] = 1; // no zero byte until the end of memory
    }
    m.registers[A0] = 300;
    m.registers[A7] = DEBUG_PRINT_SYSCALL_NUMBER;
    let mut handler = DebugSyscalls::new();
    assert_eq!(handler.ecall(&m), Err(VmError::MemoryFault));
    assert!(handler.messages.is_empty());
}

#[test]
fn mmap_rejects_range_past_buffer_end() {
    let mut m = CoreMachine::new(MEM);
    assert_eq!(m.memory.mmap(0, 5, vec![1, 2, 3], 0), Err(VmError::MemoryFault));
    assert_eq!(m.memory.mmap(0, 2, vec![1, 2, 3], 2), Err(VmError::MemoryFault));
    assert!(m.memory.mmap(0, 2, vec![1, 2, 3], 1).is_ok());
}

#[test]
fn store64_round_trips_through_memory() {
    let mut m = CoreMachine::new(MEM);
    assert!(m.memory.store64(64, 0xDEAD_BEEF_1234_5678).is_ok());
    assert_eq!(m.memory.load64(64).unwrap(), 0xDEAD_BEEF_1234_5678);
    assert!(m.memory.store64(MEM as u64 - 7, 1).is_err());
    assert!(m.memory.load8(MEM as u64).is_err());
}
