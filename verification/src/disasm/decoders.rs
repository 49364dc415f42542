//! Capstone decoders for ARM64, Thumb and x86: what capstone reads from
//! machine code, as plain values.

use vstd::prelude::*;
use capstone::arch;
use capstone::arch::{BuildsCapstone, DetailsArchInsn};
use capstone::RegId;
use capstone::arch::arm::ArmOperandType;
use capstone::arch::arm64::Arm64OperandType;
use capstone::arch::x86::X86OperandType;
use capstone::Capstone;

verus! {

#[verifier::external_type_specification]
#[verifier::external_body]
pub struct ExCapstone(Capstone);

/// An operand as capstone reads it. A floating-point immediate is held as its
/// IEEE-754 bit pattern; a memory operand's scale is `None` where the
/// architecture has none; register id 0 means no register.
#[derive(Debug, Clone, Copy, PartialEq, Eq, Structural)]
pub enum RawOperand {
    Reg(u16),
    Imm(i64),
    Mem { base: u16, index: u16, scale: Option<i32>, disp: i64 },
    Fp(u64),
    Other,
}

/// An instruction as capstone reads it.
#[derive(Debug, Clone)]
pub struct RawInsn {
    pub address: u64,
    pub len: usize,
    pub mnemonic: Option<String>,
    pub op_str: Option<String>,
    pub bytes: Vec<u8>,
}

/// The model of a raw instruction.
pub struct RawInsnView {
    pub address: u64,
    pub len: usize,
    pub mnemonic: Option<Seq<char>>,
    pub op_str: Option<Seq<char>>,
    pub bytes: Seq<u8>,
}

impl View for RawInsn {
    type V = RawInsnView;

    open spec fn view(&self) -> RawInsnView {
        RawInsnView {
            address: self.address,
            len: self.len,
            mnemonic: crate::lifter::ir::opt_str_view(self.mnemonic),
            op_str: crate::lifter::ir::opt_str_view(self.op_str),
            bytes: self.bytes@,
        }
    }
}

/// The models of a list of raw instructions.
pub open spec fn raw_views(v: Seq<RawInsn>) -> Seq<RawInsnView> {
    v.map_values(|r: RawInsn| r@)
}

/// A capstone handle set up for ARM64 in ARM mode, with details.
pub struct Arm64Disassembler {
    cs: Capstone,
}

/// A capstone handle set up for ARM in Thumb mode, with details.
pub struct Arm32Disassembler {
    cs: Capstone,
}

/// A capstone handle set up for x86, 64-bit mode unless `mode64` is false, with details.
pub struct X86Handle {
    pub(crate) cs: Capstone,
    pub(crate) mode64: bool,
}

impl X86Handle {
    /// Whether the handle decodes 64-bit code.
    pub closed spec fn is_64bit(&self) -> bool {
        self.mode64
    }

    /// Whether the handle decodes 64-bit code.
    pub fn mode64_flag(&self) -> (r: bool)
        ensures
            r == self.is_64bit(),
    {
        self.mode64
    }
}

/// The instructions capstone decodes from ARM64 code at an address; `None`
/// where it reports an error.
pub uninterp spec fn arm64_decode(code: Seq<u8>, base: u64) -> Option<Seq<RawInsnView>>;

/// The operands capstone details for the first ARM64 instruction of `bytes`
/// at an address; `None` where there is no detail.
pub uninterp spec fn arm64_operands(bytes: Seq<u8>, addr: u64) -> Option<Seq<RawOperand>>;

/// The name capstone gives an ARM64 register.
pub uninterp spec fn arm64_reg_text(id: u16) -> Option<Seq<char>>;

/// The instructions capstone decodes from Thumb code at an address.
pub uninterp spec fn thumb_decode(code: Seq<u8>, base: u64) -> Option<Seq<RawInsnView>>;

/// The operands capstone details for the first Thumb instruction of `bytes`.
pub uninterp spec fn thumb_operands(bytes: Seq<u8>, addr: u64) -> Option<Seq<RawOperand>>;

/// The name capstone gives an ARM register.
pub uninterp spec fn arm_reg_text(id: u16) -> Option<Seq<char>>;

/// The instructions capstone decodes from x86 code, in 64- or 32-bit mode.
pub uninterp spec fn x86_decode(mode64: bool, code: Seq<u8>, base: u64) -> Option<Seq<RawInsnView>>;

/// The operands capstone details for the first x86 instruction of `bytes`.
pub uninterp spec fn x86_operands(mode64: bool, bytes: Seq<u8>, addr: u64) -> Option<Seq<RawOperand>>;

/// The name capstone gives an x86 register.
pub uninterp spec fn x86_reg_text(mode64: bool, id: u16) -> Option<Seq<char>>;

/// `Capstone::new().arm64()` in ARM mode with details, `build`: the handle, or
/// the text of capstone's error.
#[verifier::external_body]
pub(crate) fn arm64_handle() -> Result<Arm64Disassembler, String> {
    let built = Capstone::new().arm64().mode(arch::arm64::ArchMode::Arm).detail(true).build();
    built.map(|cs| Arm64Disassembler { cs }).map_err(|e| e.to_string())
}

/// `Capstone::new().arm()` in Thumb mode with details, `build`.
#[verifier::external_body]
pub(crate) fn thumb_handle() -> Result<Arm32Disassembler, String> {
    let built = Capstone::new().arm().mode(arch::arm::ArchMode::Thumb).detail(true).build();
    built.map(|cs| Arm32Disassembler { cs }).map_err(|e| e.to_string())
}

/// `Capstone::new().x86()` in 64- or 32-bit mode with details, `build`.
#[verifier::external_body]
pub(crate) fn x86_handle(mode64: bool) -> (r: Result<X86Handle, String>)
    ensures
        r matches Ok(h) ==> h.is_64bit() == mode64,
{
    let mode = if mode64 { arch::x86::ArchMode::Mode64 } else { arch::x86::ArchMode::Mode32 };
    let built = Capstone::new().x86().mode(mode).detail(true).build();
    built.map(|cs| X86Handle { cs, mode64 }).map_err(|e| e.to_string())
}

/// `disasm_all` on an ARM64 handle: each instruction's address, length,
/// mnemonic, operand text and bytes, or the text of capstone's error.
#[verifier::external_body]
pub(crate) fn arm64_disasm(d: &Arm64Disassembler, code: &[u8], base: u64) -> (r: Result<Vec<RawInsn>, String>)
    ensures
        match r {
            Ok(v) => arm64_decode(code@, base) == Some(raw_views(v@)),
            Err(_) => arm64_decode(code@, base) is None,
        },
{
    let insns = d.cs.disasm_all(code, base).map_err(|e| e.to_string())?;
    Ok(insns.as_ref().iter().map(|i| RawInsn {
        address: i.address(), len: i.len(), mnemonic: i.mnemonic().map(String::from),
        op_str: i.op_str().map(String::from), bytes: i.bytes().to_vec(),
    }).collect())
}

/// `disasm_all` on a Thumb handle.
#[verifier::external_body]
pub(crate) fn thumb_disasm(d: &Arm32Disassembler, code: &[u8], base: u64) -> (r: Result<Vec<RawInsn>, String>)
    ensures
        match r {
            Ok(v) => thumb_decode(code@, base) == Some(raw_views(v@)),
            Err(_) => thumb_decode(code@, base) is None,
        },
{
    let insns = d.cs.disasm_all(code, base).map_err(|e| e.to_string())?;
    Ok(insns.as_ref().iter().map(|i| RawInsn {
        address: i.address(), len: i.len(), mnemonic: i.mnemonic().map(String::from),
        op_str: i.op_str().map(String::from), bytes: i.bytes().to_vec(),
    }).collect())
}

/// `disasm_all` on an x86 handle.
#[verifier::external_body]
pub(crate) fn x86_disasm(d: &X86Handle, code: &[u8], base: u64) -> (r: Result<Vec<RawInsn>, String>)
    ensures
        match r {
            Ok(v) => x86_decode(d.is_64bit(), code@, base) == Some(raw_views(v@)),
            Err(_) => x86_decode(d.is_64bit(), code@, base) is None,
        },
{
    let insns = d.cs.disasm_all(code, base).map_err(|e| e.to_string())?;
    Ok(insns.as_ref().iter().map(|i| RawInsn {
        address: i.address(), len: i.len(), mnemonic: i.mnemonic().map(String::from),
        op_str: i.op_str().map(String::from), bytes: i.bytes().to_vec(),
    }).collect())
}

/// `insn_detail` of the first instruction that `disasm_count` decodes from
/// `bytes`, its ARM64 operands by kind.
#[verifier::external_body]
pub(crate) fn arm64_insn_operands(d: &Arm64Disassembler, bytes: &[u8], addr: u64) -> (r: Option<Vec<RawOperand>>)
    ensures
        match r {
            Some(v) => arm64_operands(bytes@, addr) == Some(v@),
            None => arm64_operands(bytes@, addr) is None,
        },
{
    let insns = d.cs.disasm_count(bytes, addr, 1).ok()?;
    let detail = d.cs.insn_detail(insns.as_ref().first()?).ok()?;
    let arch = detail.arch_detail();
    Some(arch.arm64()?.operands().map(|op| match op.op_type {
        Arm64OperandType::Reg(r) => RawOperand::Reg(r.0),
        Arm64OperandType::Imm(v) => RawOperand::Imm(v),
        Arm64OperandType::Mem(m) => RawOperand::Mem { base: m.base().0, index: m.index().0, scale: None, disp: m.disp() as i64 },
        Arm64OperandType::Fp(f) => RawOperand::Fp(f.to_bits()),
        _ => RawOperand::Other,
    }).collect())
}

/// `insn_detail` of the first instruction that `disasm_count` decodes from
/// `bytes`, its ARM operands by kind.
#[verifier::external_body]
pub(crate) fn thumb_insn_operands(d: &Arm32Disassembler, bytes: &[u8], addr: u64) -> (r: Option<Vec<RawOperand>>)
    ensures
        match r {
            Some(v) => thumb_operands(bytes@, addr) == Some(v@),
            None => thumb_operands(bytes@, addr) is None,
        },
{
    let insns = d.cs.disasm_count(bytes, addr, 1).ok()?;
    let detail = d.cs.insn_detail(insns.as_ref().first()?).ok()?;
    let arch = detail.arch_detail();
    Some(arch.arm()?.operands().map(|op| match op.op_type {
        ArmOperandType::Reg(r) => RawOperand::Reg(r.0),
        ArmOperandType::Imm(v) => RawOperand::Imm(v as i64),
        ArmOperandType::Mem(m) => RawOperand::Mem { base: m.base().0, index: m.index().0, scale: Some(m.scale()), disp: m.disp() as i64 },
        ArmOperandType::Fp(f) => RawOperand::Fp(f.to_bits()),
        _ => RawOperand::Other,
    }).collect())
}

/// `insn_detail` of the first instruction that `disasm_count` decodes from
/// `bytes`, its x86 operands by kind.
#[verifier::external_body]
pub(crate) fn x86_insn_operands(d: &X86Handle, bytes: &[u8], addr: u64) -> (r: Option<Vec<RawOperand>>)
    ensures
        match r {
            Some(v) => x86_operands(d.is_64bit(), bytes@, addr) == Some(v@),
            None => x86_operands(d.is_64bit(), bytes@, addr) is None,
        },
{
    let insns = d.cs.disasm_count(bytes, addr, 1).ok()?;
    let detail = d.cs.insn_detail(insns.as_ref().first()?).ok()?;
    let arch = detail.arch_detail();
    Some(arch.x86()?.operands().map(|op| match op.op_type {
        X86OperandType::Reg(r) => RawOperand::Reg(r.0),
        X86OperandType::Imm(v) => RawOperand::Imm(v),
        X86OperandType::Mem(m) => RawOperand::Mem { base: m.base().0, index: m.index().0, scale: Some(m.scale()), disp: m.disp() },
        _ => RawOperand::Other,
    }).collect())
}

/// `reg_name` on an ARM64 handle.
#[verifier::external_body]
pub(crate) fn arm64_reg_name(d: &Arm64Disassembler, id: u16) -> (r: Option<String>)
    ensures
        crate::lifter::ir::opt_str_view(r) == arm64_reg_text(id),
{
    d.cs.reg_name(RegId(id))
}

/// `reg_name` on a Thumb handle.
#[verifier::external_body]
pub(crate) fn arm_reg_name(d: &Arm32Disassembler, id: u16) -> (r: Option<String>)
    ensures
        crate::lifter::ir::opt_str_view(r) == arm_reg_text(id),
{
    d.cs.reg_name(RegId(id))
}

/// `reg_name` on an x86 handle.
#[verifier::external_body]
pub(crate) fn x86_reg_name(d: &X86Handle, id: u16) -> (r: Option<String>)
    ensures
        crate::lifter::ir::opt_str_view(r) == x86_reg_text(d.is_64bit(), id),
{
    d.cs.reg_name(RegId(id))
}

} // verus!
