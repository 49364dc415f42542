//! Instructions from what capstone decodes: operands, register names,
//! branch targets and the control-flow class of each mnemonic.

use vstd::prelude::*;
use crate::binary::Architecture;
use crate::text::{contains_seq, owned, str_contains, str_eq};
use super::common::{Instruction, InstrOperand, RegInfo, MemOperand, DisasmError};
use super::decoders::{
    RawInsn, RawInsnView, RawOperand, raw_views, Arm64Disassembler, Arm32Disassembler, X86Handle,
    arm64_decode, arm64_operands, arm64_reg_text, thumb_decode, thumb_operands, arm_reg_text,
    x86_decode, x86_operands, x86_reg_text, arm64_handle, thumb_handle, x86_handle, arm64_disasm,
    thumb_disasm, x86_disasm, arm64_insn_operands, thumb_insn_operands, x86_insn_operands,
    arm64_reg_name, arm_reg_name, x86_reg_name,
};

verus! {

/// The instruction sets, as the decoders know them.
#[derive(Debug, Clone, Copy, PartialEq, Eq, Structural)]
pub enum Isa {
    Arm64,
    Thumb,
    X86 { mode64: bool },
}

/// A decoder of one instruction set.
pub enum Decoder<'a> {
    Arm64(&'a Arm64Disassembler),
    Thumb(&'a Arm32Disassembler),
    X86(&'a X86Handle),
}

/// The instruction set of a decoder.
pub open spec fn isa_of(d: Decoder) -> Isa {
    match d {
        Decoder::Arm64(_) => Isa::Arm64,
        Decoder::Thumb(_) => Isa::Thumb,
        Decoder::X86(h) => Isa::X86 { mode64: h.is_64bit() },
    }
}

/// The operands capstone details for the first instruction of `bytes`.
pub open spec fn isa_operands(isa: Isa, bytes: Seq<u8>, addr: u64) -> Option<Seq<RawOperand>> {
    match isa {
        Isa::Arm64 => arm64_operands(bytes, addr),
        Isa::Thumb => thumb_operands(bytes, addr),
        Isa::X86 { mode64 } => x86_operands(mode64, bytes, addr),
    }
}

/// The name of a register, empty where capstone gives none.
pub open spec fn isa_reg_name(isa: Isa, id: u16) -> Seq<char> {
    let n = match isa {
        Isa::Arm64 => arm64_reg_text(id),
        Isa::Thumb => arm_reg_text(id),
        Isa::X86 { mode64 } => x86_reg_text(mode64, id),
    };
    match n {
        Some(t) => t,
        None => Seq::empty(),
    }
}

/// The instructions capstone decodes.
pub open spec fn isa_decode(isa: Isa, code: Seq<u8>, base: u64) -> Option<Seq<RawInsnView>> {
    match isa {
        Isa::Arm64 => arm64_decode(code, base),
        Isa::Thumb => thumb_decode(code, base),
        Isa::X86 { mode64 } => x86_decode(mode64, code, base),
    }
}

/// The branch mnemonics of each instruction set.
pub open spec fn is_branch_mnemonic(isa: Isa, m: Seq<char>) -> bool {
    match isa {
        Isa::Arm64 => m == "b"@ || m == "b.eq"@ || m == "b.ne"@ || m == "b.lt"@ || m == "b.gt"@ || m == "b.le"@
            || m == "b.ge"@ || m == "b.hi"@ || m == "b.lo"@ || m == "b.hs"@ || m == "b.ls"@ || m == "b.mi"@
            || m == "b.pl"@ || m == "cbz"@ || m == "cbnz"@ || m == "tbz"@ || m == "tbnz"@,
        Isa::Thumb => m == "b"@ || m == "beq"@ || m == "bne"@ || m == "blt"@ || m == "bgt"@ || m == "ble"@
            || m == "bge"@ || m == "bhi"@ || m == "blo"@ || m == "bhs"@ || m == "bls"@ || m == "cbz"@ || m == "cbnz"@,
        Isa::X86 { .. } => m == "jmp"@ || m == "je"@ || m == "jne"@ || m == "jl"@ || m == "jle"@ || m == "jg"@
            || m == "jge"@ || m == "ja"@ || m == "jae"@ || m == "jb"@ || m == "jbe"@ || m == "jo"@ || m == "jno"@
            || m == "js"@ || m == "jns"@ || m == "jz"@ || m == "jnz"@,
    }
}

/// The call mnemonics of each instruction set.
pub open spec fn is_call_mnemonic(isa: Isa, m: Seq<char>) -> bool {
    match isa {
        Isa::Arm64 => m == "bl"@ || m == "blr"@,
        Isa::Thumb => m == "bl"@ || m == "blx"@,
        Isa::X86 { .. } => m == "call"@,
    }
}

/// Whether an instruction returns: `ret` on ARM64, `bx` with `lr` in its
/// operands on Thumb, `ret` or `retf` on x86.
pub open spec fn is_return_insn(isa: Isa, m: Seq<char>, ops: Seq<char>) -> bool {
    match isa {
        Isa::Arm64 => m == "ret"@,
        Isa::Thumb => m == "bx"@ && contains_seq(ops, "lr"@),
        Isa::X86 { .. } => m == "ret"@ || m == "retf"@,
    }
}

/// The register of an id, none for id 0.
pub open spec fn reg_opt_ok(isa: Isa, r: Option<RegInfo>, id: u16) -> bool {
    if id == 0 {
        r is None
    } else {
        r matches Some(ri) && ri.id == id && ri.name@ == isa_reg_name(isa, id)
    }
}

/// An operand converted: registers with their names, immediates, memory
/// operands (scale 1 where the instruction set has none) and floating-point
/// immediates.
pub open spec fn operand_ok(isa: Isa, o: InstrOperand, r: RawOperand) -> bool {
    match r {
        RawOperand::Reg(id) => o matches InstrOperand::Register(ri) && ri.id == id && ri.name@ == isa_reg_name(isa, id),
        RawOperand::Imm(v) => o matches InstrOperand::Immediate(x) && x == v,
        RawOperand::Mem { base, index, scale, disp } => o matches InstrOperand::Memory(m)
            && reg_opt_ok(isa, m.base, base) && reg_opt_ok(isa, m.index, index)
            && m.scale == (match scale { Some(s) => s, None => 1i32 }) && m.disp == disp,
        RawOperand::Fp(b) => o matches InstrOperand::FloatingPoint(x) && x == b,
        RawOperand::Other => false,
    }
}

/// The converted operands of a list: every operand but those of other kinds, in order.
pub open spec fn operands_ok(isa: Isa, out: Seq<InstrOperand>, ops: Seq<RawOperand>) -> bool
    decreases ops.len(),
{
    if ops.len() == 0 {
        out.len() == 0
    } else if ops.last() is Other {
        operands_ok(isa, out, ops.drop_last())
    } else {
        out.len() > 0 && operand_ok(isa, out.last(), ops.last()) && operands_ok(isa, out.drop_last(), ops.drop_last())
    }
}

/// The last immediate of a list of operands, if any.
pub open spec fn last_imm(ops: Seq<RawOperand>) -> Option<i64>
    decreases ops.len(),
{
    if ops.len() == 0 {
        None
    } else {
        match ops.last() {
            RawOperand::Imm(v) => Some(v),
            _ => last_imm(ops.drop_last()),
        }
    }
}

/// The text of an optional string, empty where there is none.
pub open spec fn text_or_empty(s: Option<Seq<char>>) -> Seq<char> {
    match s {
        Some(t) => t,
        None => Seq::empty(),
    }
}

/// The instruction capstone's reading gives: its address, length, texts and
/// bytes, its control-flow class by mnemonic, its operands, and, for a branch
/// or a call, the last immediate operand as its target.
pub open spec fn insn_ok(isa: Isa, i: Instruction, raw: RawInsnView) -> bool {
    let m = text_or_empty(raw.mnemonic);
    let o = text_or_empty(raw.op_str);
    let branch = is_branch_mnemonic(isa, m);
    let call = is_call_mnemonic(isa, m);
    &&& i.address == raw.address
    &&& i.size == raw.len as u8
    &&& i.mnemonic@ == m
    &&& i.op_str@ == o
    &&& i.bytes@ == raw.bytes
    &&& i.is_branch == branch
    &&& i.is_call == call
    &&& i.is_return == is_return_insn(isa, m, o)
    &&& match isa_operands(isa, raw.bytes, raw.address) {
        None => i.operands@.len() == 0 && i.branch_target is None,
        Some(ops) => operands_ok(isa, i.operands@, ops)
            && i.branch_target == (if branch || call {
                match last_imm(ops) {
                    Some(v) => Some(v as u64),
                    None => None,
                }
            } else {
                None
            }),
    }
}

/// The operands capstone details, through the decoder.
fn decoder_operands(d: &Decoder, bytes: &[u8], addr: u64) -> (r: Option<Vec<RawOperand>>)
    ensures
        match r {
            Some(v) => isa_operands(isa_of(*d), bytes@, addr) == Some(v@),
            None => isa_operands(isa_of(*d), bytes@, addr) is None,
        },
{
    match d {
        Decoder::Arm64(h) => arm64_insn_operands(h, bytes, addr),
        Decoder::Thumb(h) => thumb_insn_operands(h, bytes, addr),
        Decoder::X86(h) => x86_insn_operands(h, bytes, addr),
    }
}

/// The name of a register, through the decoder; empty where there is none.
fn decoder_reg(d: &Decoder, id: u16) -> (r: RegInfo)
    ensures
        r.id == id,
        r.name@ == isa_reg_name(isa_of(*d), id),
{
    let n = match d {
        Decoder::Arm64(h) => arm64_reg_name(h, id),
        Decoder::Thumb(h) => arm_reg_name(h, id),
        Decoder::X86(h) => x86_reg_name(h, id),
    };
    let name = match n {
        Some(t) => t,
        None => String::new(),
    };
    proof {
        reveal_strlit("");
    }
    assert(name@ =~= isa_reg_name(isa_of(*d), id));
    RegInfo { id, name }
}

/// A register of a memory operand; none for id 0.
fn decoder_reg_opt(d: &Decoder, id: u16) -> (r: Option<RegInfo>)
    ensures
        reg_opt_ok(isa_of(*d), r, id),
{
    if id != 0 { Some(decoder_reg(d, id)) } else { None }
}

/// Whether a mnemonic branches.
fn branch_mnemonic(isa: Isa, m: &str) -> (r: bool)
    ensures
        r == is_branch_mnemonic(isa, m@),
{
    match isa {
        Isa::Arm64 => str_eq(m, "b") || str_eq(m, "b.eq") || str_eq(m, "b.ne") || str_eq(m, "b.lt")
            || str_eq(m, "b.gt") || str_eq(m, "b.le") || str_eq(m, "b.ge") || str_eq(m, "b.hi") || str_eq(m, "b.lo")
            || str_eq(m, "b.hs") || str_eq(m, "b.ls") || str_eq(m, "b.mi") || str_eq(m, "b.pl") || str_eq(m, "cbz")
            || str_eq(m, "cbnz") || str_eq(m, "tbz") || str_eq(m, "tbnz"),
        Isa::Thumb => str_eq(m, "b") || str_eq(m, "beq") || str_eq(m, "bne") || str_eq(m, "blt")
            || str_eq(m, "bgt") || str_eq(m, "ble") || str_eq(m, "bge") || str_eq(m, "bhi") || str_eq(m, "blo")
            || str_eq(m, "bhs") || str_eq(m, "bls") || str_eq(m, "cbz") || str_eq(m, "cbnz"),
        Isa::X86 { .. } => str_eq(m, "jmp") || str_eq(m, "je") || str_eq(m, "jne") || str_eq(m, "jl")
            || str_eq(m, "jle") || str_eq(m, "jg") || str_eq(m, "jge") || str_eq(m, "ja") || str_eq(m, "jae")
            || str_eq(m, "jb") || str_eq(m, "jbe") || str_eq(m, "jo") || str_eq(m, "jno") || str_eq(m, "js")
            || str_eq(m, "jns") || str_eq(m, "jz") || str_eq(m, "jnz"),
    }
}

/// Whether a mnemonic calls.
fn call_mnemonic(isa: Isa, m: &str) -> (r: bool)
    ensures
        r == is_call_mnemonic(isa, m@),
{
    match isa {
        Isa::Arm64 => str_eq(m, "bl") || str_eq(m, "blr"),
        Isa::Thumb => str_eq(m, "bl") || str_eq(m, "blx"),
        Isa::X86 { .. } => str_eq(m, "call"),
    }
}

/// Whether an instruction returns.
fn return_insn(isa: Isa, m: &str, ops: &str) -> (r: bool)
    ensures
        r == is_return_insn(isa, m@, ops@),
{
    match isa {
        Isa::Arm64 => str_eq(m, "ret"),
        Isa::Thumb => str_eq(m, "bx") && str_contains(ops, "lr"),
        Isa::X86 { .. } => str_eq(m, "ret") || str_eq(m, "retf"),
    }
}

/// The instruction set of a decoder.
fn decoder_isa(d: &Decoder) -> (isa: Isa)
    ensures
        isa == isa_of(*d),
{
    match d {
        Decoder::Arm64(_) => Isa::Arm64,
        Decoder::Thumb(_) => Isa::Thumb,
        Decoder::X86(h) => Isa::X86 { mode64: h.mode64_flag() },
    }
}

/// The instruction of a raw reading.
fn convert_insn(d: &Decoder, raw: &RawInsn) -> (i: Instruction)
    ensures
        insn_ok(isa_of(*d), i, raw@),
{
    let isa = decoder_isa(d);
    let mnemonic = match &raw.mnemonic {
        Some(t) => owned(t.as_str()),
        None => String::new(),
    };
    let op_str = match &raw.op_str {
        Some(t) => owned(t.as_str()),
        None => String::new(),
    };
    proof {
        reveal_strlit("");
        assert(mnemonic@ =~= text_or_empty(raw@.mnemonic));
        assert(op_str@ =~= text_or_empty(raw@.op_str));
    }
    let is_branch = branch_mnemonic(isa, mnemonic.as_str());
    let is_call = call_mnemonic(isa, mnemonic.as_str());
    let is_return = return_insn(isa, mnemonic.as_str(), op_str.as_str());
    let mut operands: Vec<InstrOperand> = Vec::new();
    let mut branch_target: Option<u64> = None;
    match decoder_operands(d, raw.bytes.as_slice(), raw.address) {
        Some(ops) => {
            let mut k: usize = 0;
            while k < ops.len()
                invariant
                    isa == isa_of(*d),
                    0 <= k <= ops@.len(),
                    operands_ok(isa, operands@, ops@.take(k as int)),
                    branch_target == (if is_branch || is_call {
                        match last_imm(ops@.take(k as int)) {
                            Some(v) => Some(v as u64),
                            None => None,
                        }
                    } else {
                        None
                    }),
                decreases ops@.len() - k,
            {
                let ghost before = operands@;
                let op = ops[k];
                match op {
                    RawOperand::Reg(id) => {
                        operands.push(InstrOperand::Register(decoder_reg(d, id)));
                    },
                    RawOperand::Imm(v) => {
                        operands.push(InstrOperand::Immediate(v));
                        if is_branch || is_call {
                            branch_target = Some(v as u64);
                        }
                    },
                    RawOperand::Mem { base, index, scale, disp } => {
                        let b = decoder_reg_opt(d, base);
                        let x = decoder_reg_opt(d, index);
                        let sc: i32 = match scale {
                            Some(s) => s,
                            None => 1,
                        };
                        operands.push(InstrOperand::Memory(MemOperand { base: b, index: x, scale: sc, disp }));
                    },
                    RawOperand::Fp(bits) => {
                        operands.push(InstrOperand::FloatingPoint(bits));
                    },
                    RawOperand::Other => {},
                }
                proof {
                    let t = ops@.take(k + 1);
                    assert(t.drop_last() =~= ops@.take(k as int));
                    assert(t.last() == op);
                    if !(op is Other) {
                        assert(operands@.drop_last() =~= before);
                    }
                }
                k = k + 1;
            }
            assert(ops@.take(ops@.len() as int) =~= ops@);
        },
        None => {},
    }
    Instruction {
        address: raw.address,
        size: raw.len as u8,
        mnemonic,
        op_str,
        bytes: crate::text::copy_bytes(raw.bytes.as_slice()),
        operands,
        is_branch,
        is_call,
        is_return,
        branch_target,
    }
}

} // verus!

verus! {

/// The instructions of a capstone reading, one for each instruction read.
pub fn instructions_from_raw(d: &Decoder, raws: &Vec<RawInsn>) -> (v: Vec<Instruction>)
    ensures
        v@.len() == raws@.len(),
        forall|i: int| 0 <= i < raws@.len() ==> insn_ok(isa_of(*d), #[trigger] v@[i], raws@[i]@),
{
    let mut v: Vec<Instruction> = Vec::new();
    let mut i: usize = 0;
    while i < raws.len()
        invariant
            0 <= i <= raws@.len(),
            v@.len() == i,
            forall|j: int| 0 <= j < i ==> insn_ok(isa_of(*d), #[trigger] v@[j], raws@[j]@),
        decreases raws@.len() - i,
    {
        v.push(convert_insn(d, &raws[i]));
        i = i + 1;
    }
    v
}

/// The result of disassembling: the instructions of capstone's reading, or,
/// where capstone reports an error, a failure at the base address.
pub open spec fn disassembled(isa: Isa, code: Seq<u8>, base: u64, r: Result<Vec<Instruction>, DisasmError>) -> bool {
    match r {
        Ok(v) => isa_decode(isa, code, base) is Some && v@.len() == isa_decode(isa, code, base)->0.len()
            && forall|i: int| 0 <= i < v@.len() ==> insn_ok(isa, #[trigger] v@[i], isa_decode(isa, code, base)->0[i]),
        Err(e) => isa_decode(isa, code, base) is None && (e matches DisasmError::DisassemblyFailed { offset, .. }
            && offset == base),
    }
}

/// Disassembles with a decoder.
fn disassemble_with(d: &Decoder, code: &[u8], base_addr: u64) -> (r: Result<Vec<Instruction>, DisasmError>)
    ensures
        disassembled(isa_of(*d), code@, base_addr, r),
{
    let raws = match d {
        Decoder::Arm64(h) => arm64_disasm(h, code, base_addr),
        Decoder::Thumb(h) => thumb_disasm(h, code, base_addr),
        Decoder::X86(h) => x86_disasm(h, code, base_addr),
    };
    match raws {
        Ok(raws) => {
            let v = instructions_from_raw(d, &raws);
            proof {
                assert forall|i: int| 0 <= i < v@.len() implies
                    insn_ok(isa_of(*d), #[trigger] v@[i], isa_decode(isa_of(*d), code@, base_addr)->0[i]) by {
                    assert(raw_views(raws@)[i] == raws@[i]@);
                }
            }
            Ok(v)
        },
        Err(reason) => Err(DisasmError::DisassemblyFailed { offset: base_addr, reason }),
    }
}

/// An architecture-specific disassembler.
pub trait Disassembler {
    /// The instruction set it decodes.
    spec fn decoded_isa(&self) -> Isa;

    /// The architecture it was made for.
    spec fn made_for(&self) -> Architecture;

    /// Disassemble a chunk of bytes at an address into instructions.
    fn disassemble(&self, code: &[u8], base_addr: u64) -> (r: Result<Vec<Instruction>, DisasmError>)
        ensures
            disassembled(self.decoded_isa(), code@, base_addr, r),
    ;

    /// The architecture.
    fn architecture(&self) -> (a: Architecture)
        ensures
            a == self.made_for(),
    ;
}

impl Arm64Disassembler {
    /// A capstone decoder for ARM64, or the error capstone reports.
    pub fn new() -> (r: Result<Self, DisasmError>)
        ensures
            r matches Err(e) ==> e is CapstoneInit,
    {
        match arm64_handle() {
            Ok(d) => Ok(d),
            Err(t) => Err(DisasmError::CapstoneInit(t)),
        }
    }
}

impl Disassembler for Arm64Disassembler {
    open spec fn decoded_isa(&self) -> Isa {
        Isa::Arm64
    }

    open spec fn made_for(&self) -> Architecture {
        Architecture::Arm64
    }

    /// Disassemble a chunk of ARM64 code at an address.
    fn disassemble(&self, code: &[u8], base_addr: u64) -> (r: Result<Vec<Instruction>, DisasmError>) {
        disassemble_with(&Decoder::Arm64(self), code, base_addr)
    }

    /// The architecture: ARM64.
    fn architecture(&self) -> (a: Architecture) {
        Architecture::Arm64
    }
}

impl Arm32Disassembler {
    /// A capstone decoder for ARM in Thumb mode, or the error capstone reports.
    pub fn new() -> (r: Result<Self, DisasmError>)
        ensures
            r matches Err(e) ==> e is CapstoneInit,
    {
        match thumb_handle() {
            Ok(d) => Ok(d),
            Err(t) => Err(DisasmError::CapstoneInit(t)),
        }
    }
}

impl Disassembler for Arm32Disassembler {
    open spec fn decoded_isa(&self) -> Isa {
        Isa::Thumb
    }

    open spec fn made_for(&self) -> Architecture {
        Architecture::Arm32
    }

    /// Disassemble a chunk of Thumb code at an address.
    fn disassemble(&self, code: &[u8], base_addr: u64) -> (r: Result<Vec<Instruction>, DisasmError>) {
        disassemble_with(&Decoder::Thumb(self), code, base_addr)
    }

    /// The architecture: ARM32.
    fn architecture(&self) -> (a: Architecture) {
        Architecture::Arm32
    }
}

/// A capstone decoder for x86: 32-bit mode for `X86`, 64-bit otherwise.
pub struct X86_64Disassembler {
    handle: X86Handle,
    arch: Architecture,
}

impl X86_64Disassembler {
    /// The architecture it was made for.
    pub closed spec fn arch_of(&self) -> Architecture {
        self.arch
    }

    /// Whether it decodes 64-bit code.
    pub closed spec fn decodes_64(&self) -> bool {
        self.handle.is_64bit()
    }

    /// A capstone decoder for x86 code of an architecture, or the error capstone reports.
    pub fn new(arch: Architecture) -> (r: Result<Self, DisasmError>)
        ensures
            r matches Ok(d) ==> d.arch_of() == arch && d.decodes_64() == (arch != Architecture::X86),
            r matches Err(e) ==> e is CapstoneInit,
    {
        match x86_handle(arch != Architecture::X86) {
            Ok(handle) => Ok(X86_64Disassembler { handle, arch }),
            Err(t) => Err(DisasmError::CapstoneInit(t)),
        }
    }
}

impl Disassembler for X86_64Disassembler {
    open spec fn decoded_isa(&self) -> Isa {
        Isa::X86 { mode64: self.decodes_64() }
    }

    open spec fn made_for(&self) -> Architecture {
        self.arch_of()
    }

    /// Disassemble a chunk of x86 code at an address.
    fn disassemble(&self, code: &[u8], base_addr: u64) -> (r: Result<Vec<Instruction>, DisasmError>) {
        disassemble_with(&Decoder::X86(&self.handle), code, base_addr)
    }

    /// The architecture it was made for.
    fn architecture(&self) -> (a: Architecture) {
        self.arch
    }
}

/// A disassembler of one of the supported architectures.
pub enum AnyDisassembler {
    Arm64(Arm64Disassembler),
    Arm32(Arm32Disassembler),
    X86(X86_64Disassembler),
}

impl Disassembler for AnyDisassembler {
    open spec fn decoded_isa(&self) -> Isa {
        match self {
            AnyDisassembler::Arm64(d) => d.decoded_isa(),
            AnyDisassembler::Arm32(d) => d.decoded_isa(),
            AnyDisassembler::X86(d) => d.decoded_isa(),
        }
    }

    open spec fn made_for(&self) -> Architecture {
        match self {
            AnyDisassembler::Arm64(d) => d.made_for(),
            AnyDisassembler::Arm32(d) => d.made_for(),
            AnyDisassembler::X86(d) => d.made_for(),
        }
    }

    /// Disassemble a chunk of code at an address with the disassembler it holds.
    fn disassemble(&self, code: &[u8], base_addr: u64) -> (r: Result<Vec<Instruction>, DisasmError>) {
        match self {
            AnyDisassembler::Arm64(d) => d.disassemble(code, base_addr),
            AnyDisassembler::Arm32(d) => d.disassemble(code, base_addr),
            AnyDisassembler::X86(d) => d.disassemble(code, base_addr),
        }
    }

    /// The architecture of the disassembler it holds.
    fn architecture(&self) -> (a: Architecture) {
        match self {
            AnyDisassembler::Arm64(d) => d.architecture(),
            AnyDisassembler::Arm32(d) => d.architecture(),
            AnyDisassembler::X86(d) => d.architecture(),
        }
    }
}

/// Create a disassembler for the given architecture: ARM64, Thumb for ARM32,
/// and x86 in 64-bit mode for x86-64 and 32-bit mode for x86.
pub fn create_disassembler(arch: Architecture) -> (r: Result<AnyDisassembler, DisasmError>)
    ensures
        r matches Ok(d) ==> d.made_for() == arch && d.decoded_isa() == match arch {
            Architecture::Arm64 => Isa::Arm64,
            Architecture::Arm32 => Isa::Thumb,
            Architecture::X86_64 => Isa::X86 { mode64: true },
            Architecture::X86 => Isa::X86 { mode64: false },
        },
        r matches Err(e) ==> e is CapstoneInit,
{
    match arch {
        Architecture::Arm64 => match Arm64Disassembler::new() {
            Ok(d) => Ok(AnyDisassembler::Arm64(d)),
            Err(e) => Err(e),
        },
        Architecture::Arm32 => match Arm32Disassembler::new() {
            Ok(d) => Ok(AnyDisassembler::Arm32(d)),
            Err(e) => Err(e),
        },
        Architecture::X86_64 | Architecture::X86 => match X86_64Disassembler::new(arch) {
            Ok(d) => Ok(AnyDisassembler::X86(d)),
            Err(e) => Err(e),
        },
    }
}

/// The character at a position of a text.
spec fn char_at(s: Seq<char>, i: int) -> char {
    s[i]
}

/// What the disassembler reports of control flow follows the mnemonic: on
/// ARM64 both branch-with-link forms, `bl` and `blr`, are calls and nothing
/// else is, `ret` returns and `b` branches; on Thumb `bl` and `blx` are
/// calls; on x86 `call` is the call, `ret`/`retf` return and `jmp`
/// branches. A call is never also counted as a branch.
pub proof fn law_control_flow_flags(isa: Isa, code: Seq<u8>, base: u64, r: Result<Vec<Instruction>, DisasmError>, i: int)
    requires
        disassembled(isa, code, base, r),
        r is Ok,
        0 <= i < r->Ok_0@.len(),
    ensures
        isa == Isa::Arm64 ==> (r->Ok_0@[i].is_call <==> (r->Ok_0@[i].mnemonic@ == "bl"@ || r->Ok_0@[i].mnemonic@ == "blr"@)),
        isa == Isa::Arm64 ==> (r->Ok_0@[i].is_return <==> r->Ok_0@[i].mnemonic@ == "ret"@),
        isa == Isa::Arm64 && r->Ok_0@[i].mnemonic@ == "b"@ ==> r->Ok_0@[i].is_branch,
        isa == Isa::Thumb ==> (r->Ok_0@[i].is_call <==> (r->Ok_0@[i].mnemonic@ == "bl"@ || r->Ok_0@[i].mnemonic@ == "blx"@)),
        isa is X86 ==> (r->Ok_0@[i].is_call <==> r->Ok_0@[i].mnemonic@ == "call"@),
        isa is X86 ==> (r->Ok_0@[i].is_return <==> (r->Ok_0@[i].mnemonic@ == "ret"@ || r->Ok_0@[i].mnemonic@ == "retf"@)),
        isa is X86 && r->Ok_0@[i].mnemonic@ == "jmp"@ ==> r->Ok_0@[i].is_branch,
        r->Ok_0@[i].is_call ==> !r->Ok_0@[i].is_branch,
{
    reveal_strlit("b");
    reveal_strlit("b.eq");
    reveal_strlit("b.ge");
    reveal_strlit("b.gt");
    reveal_strlit("b.hi");
    reveal_strlit("b.hs");
    reveal_strlit("b.le");
    reveal_strlit("b.lo");
    reveal_strlit("b.ls");
    reveal_strlit("b.lt");
    reveal_strlit("b.mi");
    reveal_strlit("b.ne");
    reveal_strlit("b.pl");
    reveal_strlit("beq");
    reveal_strlit("bge");
    reveal_strlit("bgt");
    reveal_strlit("bhi");
    reveal_strlit("bhs");
    reveal_strlit("bl");
    reveal_strlit("ble");
    reveal_strlit("blo");
    reveal_strlit("blr");
    reveal_strlit("bls");
    reveal_strlit("blt");
    reveal_strlit("blx");
    reveal_strlit("bne");
    reveal_strlit("call");
    reveal_strlit("cbnz");
    reveal_strlit("cbz");
    reveal_strlit("ja");
    reveal_strlit("jae");
    reveal_strlit("jb");
    reveal_strlit("jbe");
    reveal_strlit("je");
    reveal_strlit("jg");
    reveal_strlit("jge");
    reveal_strlit("jl");
    reveal_strlit("jle");
    reveal_strlit("jmp");
    reveal_strlit("jne");
    reveal_strlit("jno");
    reveal_strlit("jns");
    reveal_strlit("jnz");
    reveal_strlit("jo");
    reveal_strlit("js");
    reveal_strlit("jz");
    reveal_strlit("ret");
    reveal_strlit("retf");
    reveal_strlit("tbnz");
    reveal_strlit("tbz");
    let x = r->Ok_0@[i];
    let raw = isa_decode(isa, code, base)->0[i];
    assert(insn_ok(isa, x, raw));
    let m = x.mnemonic@;
    match isa {
        Isa::Arm64 => {
            if m == "bl"@ {
                assert("bl"@.len() != "b"@.len());
                assert("bl"@.len() != "b.eq"@.len());
                assert("bl"@.len() != "b.ne"@.len());
                assert("bl"@.len() != "b.lt"@.len());
                assert("bl"@.len() != "b.gt"@.len());
                assert("bl"@.len() != "b.le"@.len());
                assert("bl"@.len() != "b.ge"@.len());
                assert("bl"@.len() != "b.hi"@.len());
                assert("bl"@.len() != "b.lo"@.len());
                assert("bl"@.len() != "b.hs"@.len());
                assert("bl"@.len() != "b.ls"@.len());
                assert("bl"@.len() != "b.mi"@.len());
                assert("bl"@.len() != "b.pl"@.len());
                assert("bl"@.len() != "cbz"@.len());
                assert("bl"@.len() != "cbnz"@.len());
                assert("bl"@.len() != "tbz"@.len());
                assert("bl"@.len() != "tbnz"@.len());
            }
            if m == "blr"@ {
                assert("blr"@.len() != "b"@.len());
                assert("blr"@.len() != "b.eq"@.len());
                assert("blr"@.len() != "b.ne"@.len());
                assert("blr"@.len() != "b.lt"@.len());
                assert("blr"@.len() != "b.gt"@.len());
                assert("blr"@.len() != "b.le"@.len());
                assert("blr"@.len() != "b.ge"@.len());
                assert("blr"@.len() != "b.hi"@.len());
                assert("blr"@.len() != "b.lo"@.len());
                assert("blr"@.len() != "b.hs"@.len());
                assert("blr"@.len() != "b.ls"@.len());
                assert("blr"@.len() != "b.mi"@.len());
                assert("blr"@.len() != "b.pl"@.len());
                assert(char_at("blr"@, 0) != char_at("cbz"@, 0));
                assert("blr"@.len() != "cbnz"@.len());
                assert(char_at("blr"@, 0) != char_at("tbz"@, 0));
                assert("blr"@.len() != "tbnz"@.len());
            }
        },
        Isa::Thumb => {
            if m == "bl"@ {
                assert("bl"@.len() != "b"@.len());
                assert("bl"@.len() != "beq"@.len());
                assert("bl"@.len() != "bne"@.len());
                assert("bl"@.len() != "blt"@.len());
                assert("bl"@.len() != "bgt"@.len());
                assert("bl"@.len() != "ble"@.len());
                assert("bl"@.len() != "bge"@.len());
                assert("bl"@.len() != "bhi"@.len());
                assert("bl"@.len() != "blo"@.len());
                assert("bl"@.len() != "bhs"@.len());
                assert("bl"@.len() != "bls"@.len());
                assert("bl"@.len() != "cbz"@.len());
                assert("bl"@.len() != "cbnz"@.len());
            }
            if m == "blx"@ {
                assert("blx"@.len() != "b"@.len());
                assert(char_at("blx"@, 1) != char_at("beq"@, 1));
                assert(char_at("blx"@, 1) != char_at("bne"@, 1));
                assert(char_at("blx"@, 2) != char_at("blt"@, 2));
                assert(char_at("blx"@, 1) != char_at("bgt"@, 1));
                assert(char_at("blx"@, 2) != char_at("ble"@, 2));
                assert(char_at("blx"@, 1) != char_at("bge"@, 1));
                assert(char_at("blx"@, 1) != char_at("bhi"@, 1));
                assert(char_at("blx"@, 2) != char_at("blo"@, 2));
                assert(char_at("blx"@, 1) != char_at("bhs"@, 1));
                assert(char_at("blx"@, 2) != char_at("bls"@, 2));
                assert(char_at("blx"@, 0) != char_at("cbz"@, 0));
                assert("blx"@.len() != "cbnz"@.len());
            }
        },
        Isa::X86 { .. } => {
            if m == "call"@ {
                assert("call"@.len() != "jmp"@.len());
                assert("call"@.len() != "je"@.len());
                assert("call"@.len() != "jne"@.len());
                assert("call"@.len() != "jl"@.len());
                assert("call"@.len() != "jle"@.len());
                assert("call"@.len() != "jg"@.len());
                assert("call"@.len() != "jge"@.len());
                assert("call"@.len() != "ja"@.len());
                assert("call"@.len() != "jae"@.len());
                assert("call"@.len() != "jb"@.len());
                assert("call"@.len() != "jbe"@.len());
                assert("call"@.len() != "jo"@.len());
                assert("call"@.len() != "jno"@.len());
                assert("call"@.len() != "js"@.len());
                assert("call"@.len() != "jns"@.len());
                assert("call"@.len() != "jz"@.len());
                assert("call"@.len() != "jnz"@.len());
            }
        },
    }
}

} // verus!
