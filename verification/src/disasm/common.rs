//! Disassembled instructions and their operands.

use vstd::prelude::*;
use vstd::string::StrSliceExecFns;
use crate::text::{hex_seq, pad_left, push_hex, push_repeated, push_str};

verus! {

/// A single disassembled instruction.
#[derive(Debug, Clone)]
pub struct Instruction {
    pub address: u64,
    pub size: u8,
    pub mnemonic: String,
    pub op_str: String,
    pub bytes: Vec<u8>,
    pub operands: Vec<InstrOperand>,
    pub is_branch: bool,
    pub is_call: bool,
    pub is_return: bool,
    pub branch_target: Option<u64>,
}

/// Operand of an instruction. A floating-point immediate is held as its
/// IEEE-754 bit pattern.
#[derive(Debug, Clone)]
pub enum InstrOperand {
    Register(RegInfo),
    Immediate(i64),
    Memory(MemOperand),
    FloatingPoint(u64),
}

/// Register information.
#[derive(Debug, Clone)]
pub struct RegInfo {
    pub id: u16,
    pub name: String,
}

/// Memory operand (base + index*scale + disp).
#[derive(Debug, Clone)]
pub struct MemOperand {
    pub base: Option<RegInfo>,
    pub index: Option<RegInfo>,
    pub scale: i32,
    pub disp: i64,
}

/// The text `0x{address:08x}: {mnemonic} {op_str}` of an instruction.
pub open spec fn instruction_text(i: Instruction) -> Seq<char> {
    "0x"@ + pad_left(hex_seq(i.address as nat), '0', 8) + ": "@ + i.mnemonic@ + " "@ + i.op_str@
}

impl Instruction {
    /// Check if this instruction is a branch/jump.
    pub fn is_control_flow(&self) -> (r: bool)
        ensures
            r == (self.is_branch || self.is_call || self.is_return),
    {
        self.is_branch || self.is_call || self.is_return
    }

    /// Get a human-readable representation.
    pub fn to_string_repr(&self) -> (r: String)
        ensures
            r@ == instruction_text(*self),
    {
        let mut digits = String::new();
        push_hex(&mut digits, self.address);
        let mut s = String::new();
        push_str(&mut s, "0x");
        let n = digits.as_str().unicode_len();
        if n < 8 {
            push_repeated(&mut s, '0', 8 - n);
            push_str(&mut s, digits.as_str());
            assert(s@ =~= "0x"@ + pad_left(hex_seq(self.address as nat), '0', 8));
        } else {
            push_str(&mut s, digits.as_str());
            assert(s@ =~= "0x"@ + pad_left(hex_seq(self.address as nat), '0', 8));
        }
        push_str(&mut s, ": ");
        push_str(&mut s, self.mnemonic.as_str());
        push_str(&mut s, " ");
        push_str(&mut s, self.op_str.as_str());
        assert(s@ =~= instruction_text(*self));
        s
    }
}

/// Errors of disassembly.
#[derive(Debug)]
pub enum DisasmError {
    CapstoneInit(String),
    DisassemblyFailed { offset: u64, reason: String },
    UnsupportedArch(String),
}

} // verus!
