use vstd::prelude::*;

verus! {

/// Immediate-operand (I-type) instructions of the base integer set; the load
/// instructions are the ones the cost table distinguishes.
#[allow(non_camel_case_types)]
#[derive(Clone, Copy, PartialEq, Eq, Structural, Debug)]
pub enum ItypeInstruction {
    LD,
    LW,
    LH,
    LB,
    LWU,
    LHU,
    LBU,
    /// Any other I-type instruction (arithmetic, shifts, jumps, ...).
    Other,
}

/// Base integer instruction set, split by format.
#[derive(Clone, Copy, PartialEq, Eq, Structural, Debug)]
pub enum IInstruction {
    I(ItypeInstruction),
    /// Any non-I-type base instruction (R-type, branches, stores, ...).
    Other,
}

/// Unsigned-immediate compressed instructions; the loads are the ones the
/// cost table distinguishes.
#[allow(non_camel_case_types)]
#[derive(Clone, Copy, PartialEq, Eq, Structural, Debug)]
pub enum ItypeUInstruction {
    LW,
    LD,
    /// Any other unsigned-immediate compressed instruction.
    Other,
}

/// Compressed instruction set, split by format.
#[derive(Clone, Copy, PartialEq, Eq, Structural, Debug)]
pub enum RvcInstruction {
    Iu(ItypeUInstruction),
    /// Any other compressed instruction.
    Other,
}

/// The multiply/divide extension: every variant is an R-type instruction.
#[allow(non_camel_case_types)]
#[derive(Clone, Copy, PartialEq, Eq, Structural, Debug)]
pub enum RtypeInstruction {
    MUL,
    MULW,
    MULH,
    MULHU,
    MULHSU,
    DIV,
    DIVW,
    DIVU,
    DIVUW,
    REM,
    REMW,
    REMU,
    REMUW,
}

/// A decoded instruction, keyed by the categories the cost table reads.
#[allow(non_camel_case_types)]
#[derive(Clone, Copy, PartialEq, Eq, Structural, Debug)]
pub enum Instruction {
    I(IInstruction),
    RVC(RvcInstruction),
    M(RtypeInstruction),
}

/// The cycle-cost table: double-word loads cost 2, other loads cost 3,
/// multiply-class instructions cost 5, divide/remainder-class instructions
/// cost 16, and every other instruction costs 1.
pub open spec fn cycle_cost(i: Instruction) -> u64 {
    match i {
        Instruction::I(inner) => match inner {
            IInstruction::I(itype) => match itype {
                ItypeInstruction::LD => 2,
                ItypeInstruction::LW => 3,
                ItypeInstruction::LH => 3,
                ItypeInstruction::LB => 3,
                ItypeInstruction::LWU => 3,
                ItypeInstruction::LHU => 3,
                ItypeInstruction::LBU => 3,
                ItypeInstruction::Other => 1,
            },
            IInstruction::Other => 1,
        },
        Instruction::RVC(inner) => match inner {
            RvcInstruction::Iu(itype) => match itype {
                ItypeUInstruction::LW => 3,
                ItypeUInstruction::LD => 2,
                ItypeUInstruction::Other => 1,
            },
            RvcInstruction::Other => 1,
        },
        Instruction::M(rtype) => match rtype {
            RtypeInstruction::MUL => 5,
            RtypeInstruction::MULW => 5,
            RtypeInstruction::MULH => 5,
            RtypeInstruction::MULHU => 5,
            RtypeInstruction::MULHSU => 5,
            RtypeInstruction::DIV => 16,
            RtypeInstruction::DIVW => 16,
            RtypeInstruction::DIVU => 16,
            RtypeInstruction::DIVUW => 16,
            RtypeInstruction::REM => 16,
            RtypeInstruction::REMW => 16,
            RtypeInstruction::REMU => 16,
            RtypeInstruction::REMUW => 16,
        },
    }
}

/// Cycle count charged for one retired instruction, consulted by the
/// execution loop once per instruction.
pub fn instruction_cycle_costs(i: &Instruction) -> (c: u64)
    ensures
        c == cycle_cost(*i),
        1 <= c <= 16,
{
    match i {
        Instruction::I(inner) => match inner {
            IInstruction::I(itype) => match itype {
                ItypeInstruction::LD => 2,
                ItypeInstruction::LW => 3,
                ItypeInstruction::LH => 3,
                ItypeInstruction::LB => 3,
                ItypeInstruction::LWU => 3,
                ItypeInstruction::LHU => 3,
                ItypeInstruction::LBU => 3,
                ItypeInstruction::Other => 1,
            },
            IInstruction::Other => 1,
        },
        Instruction::RVC(inner) => match inner {
            RvcInstruction::Iu(itype) => match itype {
                ItypeUInstruction::LW => 3,
                ItypeUInstruction::LD => 2,
                ItypeUInstruction::Other => 1,
            },
            RvcInstruction::Other => 1,
        },
        Instruction::M(rtype) => match rtype {
            RtypeInstruction::MUL => 5,
            RtypeInstruction::MULW => 5,
            RtypeInstruction::MULH => 5,
            RtypeInstruction::MULHU => 5,
            RtypeInstruction::MULHSU => 5,
            RtypeInstruction::DIV => 16,
            RtypeInstruction::DIVW => 16,
            RtypeInstruction::DIVU => 16,
            RtypeInstruction::DIVUW => 16,
            RtypeInstruction::REM => 16,
            RtypeInstruction::REMW => 16,
            RtypeInstruction::REMU => 16,
            RtypeInstruction::REMUW => 16,
        },
    }
}

/// The cost table is total: every instruction variant has a defined cycle
/// count, and every cycle count is positive (in particular never zero, so
/// each retired instruction makes the cycle counter progress).
pub proof fn lemma_cost_model_total(i: Instruction)
    ensures
        1 <= cycle_cost(i) <= 16,
        i matches Instruction::I(IInstruction::I(it)) && it == ItypeInstruction::LD
            ==> cycle_cost(i) == 2,
        i matches Instruction::RVC(RvcInstruction::Iu(it)) && it == ItypeUInstruction::LD
            ==> cycle_cost(i) == 2,
        i matches Instruction::M(r) && (r == RtypeInstruction::MUL || r == RtypeInstruction::MULW
            || r == RtypeInstruction::MULH || r == RtypeInstruction::MULHU
            || r == RtypeInstruction::MULHSU) ==> cycle_cost(i) == 5,
        i matches Instruction::M(r) && !(r == RtypeInstruction::MUL || r == RtypeInstruction::MULW
            || r == RtypeInstruction::MULH || r == RtypeInstruction::MULHU
            || r == RtypeInstruction::MULHSU) ==> cycle_cost(i) == 16,
{
}

} // verus!
