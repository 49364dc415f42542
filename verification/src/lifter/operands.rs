//! Reading the operands of a disassembled instruction, shared by all lifters.

use vstd::prelude::*;
use crate::disasm::common::{InstrOperand, Instruction};
use crate::text::push_str;
use super::ir::{BlockId, IRView, Operand, OperandView, Reg, IR};

verus! {

/// The register of operand `idx`, or register 0 when it is absent or not a register.
pub open spec fn reg_operand(insn: Instruction, idx: int) -> Reg {
    if 0 <= idx < insn.operands@.len() {
        match insn.operands@[idx] {
            InstrOperand::Register(r) => Reg(r.id),
            _ => Reg(0),
        }
    } else {
        Reg(0)
    }
}

/// The immediate value of operand `idx`, if it is an immediate.
pub open spec fn imm_operand(insn: Instruction, idx: int) -> Option<i64> {
    if 0 <= idx < insn.operands@.len() {
        match insn.operands@[idx] {
            InstrOperand::Immediate(v) => Some(v),
            _ => None,
        }
    } else {
        None
    }
}

/// The base register (register 0 when absent) and displacement of operand
/// `idx`, if it is a memory operand.
pub open spec fn mem_operand(insn: Instruction, idx: int) -> Option<(Reg, i64)> {
    if 0 <= idx < insn.operands@.len() {
        match insn.operands@[idx] {
            InstrOperand::Memory(m) => Some(
                (
                    match m.base {
                        Some(r) => Reg(r.id),
                        None => Reg(0),
                    },
                    m.disp,
                ),
            ),
            _ => None,
        }
    } else {
        None
    }
}

/// The assembly text `mnemonic op_str` of an instruction.
pub open spec fn raw_asm_text(insn: Instruction) -> Seq<char> {
    insn.mnemonic@ + " "@ + insn.op_str@
}

/// The IR that stands for an instruction that is not understood.
pub open spec fn unknown_ir(insn: Instruction) -> IRView {
    IRView::Unknown { address: insn.address, raw_asm: raw_asm_text(insn) }
}

/// The block identifier of the instruction that follows `insn`.
pub open spec fn fallthrough_target(insn: Instruction) -> BlockId {
    (insn.address + insn.size) as BlockId
}

/// The instruction's fall-through address fits in 64 bits.
pub open spec fn fallthrough_fits(insn: Instruction) -> bool {
    insn.address + insn.size <= u64::MAX
}

/// The block identifier a branch target names.
pub open spec fn target_block(t: Option<u64>) -> BlockId {
    match t {
        Some(v) => v as BlockId,
        None => 0,
    }
}

/// The immediate of operand `idx` as an operand, or else its register.
pub open spec fn imm_or_reg(insn: Instruction, idx: int) -> OperandView {
    match imm_operand(insn, idx) {
        Some(v) => OperandView::Imm(v),
        None => OperandView::Reg(reg_operand(insn, idx)),
    }
}

/// The register of operand `idx`.
pub fn get_reg_id(insn: &Instruction, idx: usize) -> (r: Reg)
    ensures
        r == reg_operand(*insn, idx as int),
{
    if idx < insn.operands.len() {
        match &insn.operands[idx] {
            InstrOperand::Register(r) => Reg(r.id),
            _ => Reg(0),
        }
    } else {
        Reg(0)
    }
}

/// The immediate of operand `idx`.
pub fn get_imm(insn: &Instruction, idx: usize) -> (r: Option<i64>)
    ensures
        r == imm_operand(*insn, idx as int),
{
    if idx < insn.operands.len() {
        match &insn.operands[idx] {
            InstrOperand::Immediate(v) => Some(*v),
            _ => None,
        }
    } else {
        None
    }
}

/// The base register and displacement of memory operand `idx`.
pub fn get_mem_disp(insn: &Instruction, idx: usize) -> (r: Option<(Reg, i64)>)
    ensures
        r == mem_operand(*insn, idx as int),
{
    if idx < insn.operands.len() {
        match &insn.operands[idx] {
            InstrOperand::Memory(m) => {
                let base = match &m.base {
                    Some(r) => Reg(r.id),
                    None => Reg(0),
                };
                Some((base, m.disp))
            },
            _ => None,
        }
    } else {
        None
    }
}

/// The immediate of operand `idx` as an operand, or else its register.
pub fn get_imm_or_reg(insn: &Instruction, idx: usize) -> (r: Operand)
    ensures
        r@ == imm_or_reg(*insn, idx as int),
{
    match get_imm(insn, idx) {
        Some(v) => Operand::Imm(v),
        None => Operand::Reg(get_reg_id(insn, idx)),
    }
}

/// The IR for an instruction that is not understood.
pub fn unknown(insn: &Instruction) -> (r: IR)
    ensures
        r@ == unknown_ir(*insn),
{
    let mut raw = insn.mnemonic.clone();
    push_str(&mut raw, " ");
    push_str(&mut raw, insn.op_str.as_str());
    IR::Unknown { address: insn.address, raw_asm: raw }
}

/// The block identifier of the instruction that follows `insn`.
pub fn fallthrough(insn: &Instruction) -> (r: BlockId)
    requires
        fallthrough_fits(*insn),
    ensures
        r == fallthrough_target(*insn),
{
    (insn.address + insn.size as u64) as BlockId
}

/// The block identifier a branch target names (0 when there is none).
pub fn target_of(t: Option<u64>) -> (r: BlockId)
    ensures
        r == target_block(t),
{
    match t {
        Some(v) => v as BlockId,
        None => 0,
    }
}

} // verus!
