use ckb_debugger::cost_model::{
    instruction_cycle_costs, IInstruction, Instruction, ItypeInstruction, ItypeUInstruction,
    RtypeInstruction, RvcInstruction,
};
use ckb_debugger::resolver::{RpcCellProvider, TransactionWithHash};
use ckb_debugger::tx::{CellOutput, CellStatus, Hash256, Transaction};

fn itype(i: ItypeInstruction) -> Instruction {
    Instruction::I(IInstruction::I(i))
}

fn rvc(i: ItypeUInstruction) -> Instruction {
    Instruction::RVC(RvcInstruction::Iu(i))
}

#[test]
fn load_double_costs_two() {
    assert_eq!(instruction_cycle_costs(&itype(ItypeInstruction::LD)), 2);
    assert_eq!(instruction_cycle_costs(&rvc(ItypeUInstruction::LD)), 2);
}

#[test]
fn other_loads_cost_three() {
    for i in [
        ItypeInstruction::LW,
        ItypeInstruction::LH,
        ItypeInstruction::LB,
        ItypeInstruction::LWU,
        ItypeInstruction::LHU,
        ItypeInstruction::LBU,
    ] {
        assert_eq!(instruction_cycle_costs(&itype(i)), 3);
    }
    assert_eq!(instruction_cycle_costs(&rvc(ItypeUInstruction::LW)), 3);
}

#[test]
fn multiplies_cost_five() {
    for m in [
        RtypeInstruction::MUL,
        RtypeInstruction::MULW,
        RtypeInstruction::MULH,
        RtypeInstruction::MULHU,
        RtypeInstruction::MULHSU,
    ] {
        assert_eq!(instruction_cycle_costs(&Instruction::M(m)), 5);
    }
}

#[test]
fn divides_and_remainders_cost_sixteen() {
    for m in [
        RtypeInstruction::DIV,
        RtypeInstruction::DIVW,
        RtypeInstruction::DIVU,
        RtypeInstruction::DIVUW,
        RtypeInstruction::REM,
        RtypeInstruction::REMW,
        RtypeInstruction::REMU,
        RtypeInstruction::REMUW,
    ] {
        assert_eq!(instruction_cycle_costs(&Instruction::M(m)), 16);
    }
}

#[test]
fn everything_else_costs_one() {
    assert_eq!(instruction_cycle_costs(&itype(ItypeInstruction::Other)), 1);
    assert_eq!(instruction_cycle_costs(&Instruction::I(IInstruction::Other)), 1);
    assert_eq!(instruction_cycle_costs(&rvc(ItypeUInstruction::Other)), 1);
    assert_eq!(instruction_cycle_costs(&Instruction::RVC(RvcInstruction::Other)), 1);
}

fn hash32(fill: u8) -> Hash256 {
    Hash256 { bytes: vec![fill; 32] }
}

fn found_tx() -> TransactionWithHash {
    TransactionWithHash {
        hash: hash32(0x33),
        transaction: Transaction {
            version: 0,
            deps: vec![],
            inputs: vec![],
            outputs: vec![
                CellOutput { capacity: 50, lock: vec![] },
                CellOutput { capacity: 100, lock: vec![0xAA] },
            ],
        },
    }
}

#[test]
fn resolver_returns_current_cell() {
    let provider = RpcCellProvider::new(hash32(0x01));
    match provider.cell(1, Some(found_tx())) {
        CellStatus::Current(cell) => {
            assert_eq!(cell.capacity, 100);
            assert_eq!(cell.lock, vec![0xAA]);
        }
        CellStatus::Unknown => panic!("the cell exists and must resolve"),
    }
}

#[test]
fn resolver_out_of_range_index_is_unknown() {
    let provider = RpcCellProvider::new(hash32(0x01));
    match provider.cell(2, Some(found_tx())) {
        CellStatus::Current(_) => panic!("index 2 is out of range"),
        CellStatus::Unknown => {}
    }
}

#[test]
fn resolver_missing_transaction_is_unknown() {
    let provider = RpcCellProvider::new(hash32(0x01));
    match provider.cell(0, None) {
        CellStatus::Current(_) => panic!("a failed lookup must be unknown"),
        CellStatus::Unknown => {}
    }
}

#[test]
fn resolver_pins_tip_at_construction() {
    let provider = RpcCellProvider::new(hash32(0x42));
    // one pinned snapshot, whatever happens remotely later
    assert_eq!(provider.tip.bytes, vec![0x42u8; 32]);
    let _ = provider.cell(0, None);
    let _ = provider.cell(1, Some(found_tx()));
    assert_eq!(provider.tip.bytes, vec![0x42u8; 32]);
}

#[test]
fn resolver_same_reply_same_outcome() {
    let provider = RpcCellProvider::new(hash32(0x42));
    let a = provider.cell(1, Some(found_tx()));
    let b = provider.cell_at(1, &hash32(0x99), Some(found_tx()));
    match (a, b) {
        (CellStatus::Current(x), CellStatus::Current(y)) => {
            assert_eq!(x.capacity, y.capacity);
            assert_eq!(x.lock, y.lock);
        }
        _ => panic!("both resolutions must find the same cell"),
    }
}
