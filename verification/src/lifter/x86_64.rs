//! Lifting of x86_64 instructions into IR.

use vstd::prelude::*;
use crate::disasm::common::Instruction;
use crate::snapshot::SnapshotAddr;
use crate::text::{chars_is, chars_of};
use super::ir::{
    BinOpKind, BlockId, CallKind, CallKindView, Condition, ConditionView, IRView, Operand,
    OperandView, Reg, StubCallKind, IR, char_at, ir_list_view, lifted_binop, lifted_condition, operands_view,
};
use super::operands::{
    fallthrough, fallthrough_fits, get_imm, get_imm_or_reg, get_mem_disp, get_reg_id, imm_operand,
    imm_or_reg, mem_operand, reg_operand, target_of, unknown, unknown_ir,
};
use super::arm64::branch_to;
use super::resolvers::{map_lookup, PoolResolver, StubResolver};
use super::LiftError;

verus! {

/// A two-operand instruction `dst = dst op src`.
pub open spec fn x86_binop(insn: Instruction, op: BinOpKind) -> Seq<IRView> {
    let dst = reg_operand(insn, 0);
    seq![IRView::BinOp { dst, op, lhs: OperandView::Reg(dst), rhs: imm_or_reg(insn, 1) }]
}

/// The operation a two-operand mnemonic performs, if it is one.
pub open spec fn x86_binop_kind(m: Seq<char>) -> Option<BinOpKind> {
    if m == "add"@ {
        Some(BinOpKind::Add)
    } else if m == "sub"@ {
        Some(BinOpKind::Sub)
    } else if m == "and"@ {
        Some(BinOpKind::And)
    } else if m == "or"@ {
        Some(BinOpKind::Or)
    } else if m == "xor"@ {
        Some(BinOpKind::Xor)
    } else if m == "shl"@ || m == "sal"@ {
        Some(BinOpKind::Shl)
    } else if m == "shr"@ {
        Some(BinOpKind::Shr)
    } else {
        None
    }
}

/// The condition a conditional jump mnemonic tests, if it is one.
pub open spec fn x86_condition(m: Seq<char>) -> Option<ConditionView> {
    if m == "je"@ || m == "jz"@ {
        Some(ConditionView::Equal)
    } else if m == "jne"@ || m == "jnz"@ {
        Some(ConditionView::NotEqual)
    } else if m == "jl"@ || m == "jnge"@ {
        Some(ConditionView::LessThan)
    } else if m == "jg"@ || m == "jnle"@ {
        Some(ConditionView::GreaterThan)
    } else if m == "jle"@ || m == "jng"@ {
        Some(ConditionView::LessOrEqual)
    } else if m == "jge"@ || m == "jnl"@ {
        Some(ConditionView::GreaterOrEqual)
    } else {
        None
    }
}

/// The IR for one x86_64 instruction.
pub open spec fn x86_lift_one(insn: Instruction, addrs: Map<u64, StubCallKind>) -> Seq<IRView> {
    let m = insn.mnemonic@;
    let dst = reg_operand(insn, 0);
    if m == "mov"@ || m == "movabs"@ || m == "movzx"@ || m == "movsx"@ || m == "movsxd"@ {
        match imm_operand(insn, 1) {
            Some(imm) => seq![IRView::Assign(dst, OperandView::Imm(imm))],
            None => match mem_operand(insn, 1) {
                Some((base, disp)) => seq![IRView::LoadField { dst, base, offset: disp as u32, field_name: None }],
                None => seq![IRView::Assign(dst, OperandView::Reg(reg_operand(insn, 1)))],
            },
        }
    } else if m == "lea"@ {
        match mem_operand(insn, 1) {
            Some((base, disp)) => seq![
                IRView::BinOp {
                    dst,
                    op: BinOpKind::Add,
                    lhs: OperandView::Reg(base),
                    rhs: OperandView::Imm(disp),
                },
            ],
            None => seq![unknown_ir(insn)],
        }
    } else if x86_binop_kind(m) is Some {
        x86_binop(insn, x86_binop_kind(m)->0)
    } else if m == "imul"@ {
        seq![
            IRView::BinOp {
                dst,
                op: BinOpKind::Mul,
                lhs: OperandView::Reg(reg_operand(insn, 1)),
                rhs: match imm_operand(insn, 2) {
                    Some(v) => OperandView::Imm(v),
                    None => OperandView::Reg(reg_operand(insn, 1)),
                },
            },
        ]
    } else if m == "cmp"@ || m == "test"@ {
        seq![IRView::Compare { lhs: OperandView::Reg(dst), rhs: imm_or_reg(insn, 1) }]
    } else if m == "jmp"@ {
        match insn.branch_target {
            Some(t) => seq![IRView::Jump(t as BlockId)],
            None => seq![unknown_ir(insn)],
        }
    } else if x86_condition(m) is Some {
        branch_to(insn, x86_condition(m)->0)
    } else if m == "call"@ {
        let target = match insn.branch_target {
            Some(t) => t,
            None => 0,
        };
        match map_lookup(addrs, target) {
            Some(k) => seq![IRView::Call { dst: Some(Reg(0)), kind: CallKindView::Stub(k), args: Seq::empty() }],
            None => seq![
                IRView::Call {
                    dst: Some(Reg(0)),
                    kind: CallKindView::Direct(SnapshotAddr(target)),
                    args: Seq::empty(),
                },
            ],
        }
    } else if m == "ret"@ || m == "retf"@ {
        seq![IRView::Return(Some(OperandView::Reg(Reg(0))))]
    } else if m == "push"@ || m == "pop"@ || m == "nop"@ || m == "endbr64"@ {
        Seq::empty()
    } else {
        seq![unknown_ir(insn)]
    }
}

/// The IR for the first `n` instructions, in order.
pub open spec fn x86_lift_prefix(insns: Seq<Instruction>, n: nat, addrs: Map<u64, StubCallKind>) -> Seq<IRView>
    decreases n,
{
    if n == 0 {
        Seq::empty()
    } else {
        x86_lift_prefix(insns, (n - 1) as nat, addrs) + x86_lift_one(insns[n - 1], addrs)
    }
}

fn one(ir: IR) -> (r: Vec<IR>)
    ensures
        ir_list_view(r@) == seq![ir@],
{
    let ghost v = ir@;
    let r = vec![ir];
    assert(ir_list_view(r@) =~= seq![v]);
    r
}

fn binop_kind_of(m: &[char]) -> (r: Option<BinOpKind>)
    ensures
        r == x86_binop_kind(m@),
{
    if chars_is(m, "add") {
        Some(BinOpKind::Add)
    } else if chars_is(m, "sub") {
        Some(BinOpKind::Sub)
    } else if chars_is(m, "and") {
        Some(BinOpKind::And)
    } else if chars_is(m, "or") {
        Some(BinOpKind::Or)
    } else if chars_is(m, "xor") {
        Some(BinOpKind::Xor)
    } else if chars_is(m, "shl") || chars_is(m, "sal") {
        Some(BinOpKind::Shl)
    } else if chars_is(m, "shr") {
        Some(BinOpKind::Shr)
    } else {
        None
    }
}

fn condition_of(m: &[char]) -> (r: Option<Condition>)
    ensures
        match r {
            Some(c) => x86_condition(m@) == Some(c@),
            None => x86_condition(m@) is None,
        },
{
    if chars_is(m, "je") || chars_is(m, "jz") {
        Some(Condition::Equal)
    } else if chars_is(m, "jne") || chars_is(m, "jnz") {
        Some(Condition::NotEqual)
    } else if chars_is(m, "jl") || chars_is(m, "jnge") {
        Some(Condition::LessThan)
    } else if chars_is(m, "jg") || chars_is(m, "jnle") {
        Some(Condition::GreaterThan)
    } else if chars_is(m, "jle") || chars_is(m, "jng") {
        Some(Condition::LessOrEqual)
    } else if chars_is(m, "jge") || chars_is(m, "jnl") {
        Some(Condition::GreaterOrEqual)
    } else {
        None
    }
}

fn lift_single_x86(insn: &Instruction, stub_resolver: &StubResolver) -> (r: Vec<IR>)
    requires
        fallthrough_fits(*insn),
    ensures
        ir_list_view(r@) == x86_lift_one(*insn, stub_resolver.addresses()),
{
    let mc = chars_of(insn.mnemonic.as_str());
    let m = mc.as_slice();
    let dst = get_reg_id(insn, 0);
    if chars_is(m, "mov") || chars_is(m, "movabs") || chars_is(m, "movzx") || chars_is(m, "movsx")
        || chars_is(m, "movsxd") {
        if let Some(imm) = get_imm(insn, 1) {
            one(IR::Assign(dst, Operand::Imm(imm)))
        } else if let Some((base, disp)) = get_mem_disp(insn, 1) {
            one(IR::LoadField { dst, base, offset: disp as u32, field_name: None })
        } else {
            let src = get_reg_id(insn, 1);
            one(IR::Assign(dst, Operand::Reg(src)))
        }
    } else if chars_is(m, "lea") {
        if let Some((base, disp)) = get_mem_disp(insn, 1) {
            one(IR::BinOp { dst, op: BinOpKind::Add, lhs: Operand::Reg(base), rhs: Operand::Imm(disp) })
        } else {
            one(unknown(insn))
        }
    } else if let Some(op) = binop_kind_of(m) {
        one(IR::BinOp { dst, op, lhs: Operand::Reg(dst), rhs: get_imm_or_reg(insn, 1) })
    } else if chars_is(m, "imul") {
        let src = get_reg_id(insn, 1);
        let rhs = match get_imm(insn, 2) {
            Some(v) => Operand::Imm(v),
            None => Operand::Reg(src),
        };
        one(IR::BinOp { dst, op: BinOpKind::Mul, lhs: Operand::Reg(src), rhs })
    } else if chars_is(m, "cmp") || chars_is(m, "test") {
        one(IR::Compare { lhs: Operand::Reg(dst), rhs: get_imm_or_reg(insn, 1) })
    } else if chars_is(m, "jmp") {
        if let Some(target) = insn.branch_target {
            one(IR::Jump(target as BlockId))
        } else {
            one(unknown(insn))
        }
    } else if let Some(condition) = condition_of(m) {
        let ghost cv = condition@;
        let target = target_of(insn.branch_target);
        let ft = fallthrough(insn);
        let r = one(IR::Branch { condition, true_target: target, false_target: ft });
        assert(ir_list_view(r@) =~= branch_to(*insn, cv));
        r
    } else if chars_is(m, "call") {
        let target = match insn.branch_target {
            Some(t) => t,
            None => 0,
        };
        let args: Vec<Operand> = Vec::new();
        assert(operands_view(args@) =~= Seq::<OperandView>::empty());
        if let Some(stub_kind) = stub_resolver.resolve_address(target) {
            return one(IR::Call { dst: Some(Reg(0)), kind: CallKind::Stub(stub_kind), args });
        }
        one(IR::Call { dst: Some(Reg(0)), kind: CallKind::Direct(SnapshotAddr(target)), args })
    } else if chars_is(m, "ret") || chars_is(m, "retf") {
        one(IR::Return(Some(Operand::Reg(Reg(0)))))
    } else if chars_is(m, "push") || chars_is(m, "pop") || chars_is(m, "nop") || chars_is(m, "endbr64") {
        let r: Vec<IR> = Vec::new();
        assert(ir_list_view(r@) =~= Seq::<IRView>::empty());
        r
    } else {
        one(unknown(insn))
    }
}

/// Lift x86_64 instructions into IR: the IR of each instruction, in order.
pub fn lift_x86_64(
    instructions: &[Instruction],
    pool_resolver: &PoolResolver,
    stub_resolver: &StubResolver,
) -> (r: Result<Vec<IR>, LiftError>)
    requires
        forall|i: int| 0 <= i < instructions@.len() ==> fallthrough_fits(#[trigger] instructions@[i]),
    ensures
        r matches Ok(v) && ir_list_view(v@) == x86_lift_prefix(
            instructions@,
            instructions@.len(),
            stub_resolver.addresses(),
        ),
{
    let mut ir_list: Vec<IR> = Vec::new();
    let mut i: usize = 0;
    while i < instructions.len()
        invariant
            i <= instructions@.len(),
            forall|k: int| 0 <= k < instructions@.len() ==> fallthrough_fits(#[trigger] instructions@[k]),
            ir_list_view(ir_list@) == x86_lift_prefix(instructions@, i as nat, stub_resolver.addresses()),
        decreases instructions.len() - i,
    {
        let mut ir = lift_single_x86(&instructions[i], stub_resolver);
        let ghost before = ir_list@;
        let ghost part = ir@;
        ir_list.append(&mut ir);
        assert(ir_list@ == before + part);
        assert(ir_list_view(ir_list@) =~= ir_list_view(before) + ir_list_view(part));
        i = i + 1;
    }
    Ok(ir_list)
}

/// The arithmetic of an x86_64 instruction is the operation its mnemonic
/// names: `add` and `lea` add, `sub` subtracts, `imul` multiplies, `and`,
/// `or` and `xor` are the bitwise operations, `shl`/`sal` and `shr` the
/// shifts. The IR of each instruction follows that of the ones before it.
pub proof fn law_x86_arithmetic(insns: Seq<Instruction>, k: int, addrs: Map<u64, StubCallKind>)
    requires
        0 <= k < insns.len(),
    ensures
        insns[k].mnemonic@ == "add"@ ==> lifted_binop(x86_lift_one(insns[k], addrs)) == Some(BinOpKind::Add),
        insns[k].mnemonic@ == "sub"@ ==> lifted_binop(x86_lift_one(insns[k], addrs)) == Some(BinOpKind::Sub),
        insns[k].mnemonic@ == "and"@ ==> lifted_binop(x86_lift_one(insns[k], addrs)) == Some(BinOpKind::And),
        insns[k].mnemonic@ == "or"@ ==> lifted_binop(x86_lift_one(insns[k], addrs)) == Some(BinOpKind::Or),
        insns[k].mnemonic@ == "xor"@ ==> lifted_binop(x86_lift_one(insns[k], addrs)) == Some(BinOpKind::Xor),
        insns[k].mnemonic@ == "shl"@ ==> lifted_binop(x86_lift_one(insns[k], addrs)) == Some(BinOpKind::Shl),
        insns[k].mnemonic@ == "sal"@ ==> lifted_binop(x86_lift_one(insns[k], addrs)) == Some(BinOpKind::Shl),
        insns[k].mnemonic@ == "shr"@ ==> lifted_binop(x86_lift_one(insns[k], addrs)) == Some(BinOpKind::Shr),
        insns[k].mnemonic@ == "imul"@ ==> lifted_binop(x86_lift_one(insns[k], addrs)) == Some(BinOpKind::Mul),
        insns[k].mnemonic@ == "lea"@ && mem_operand(insns[k], 1) is Some
            ==> lifted_binop(x86_lift_one(insns[k], addrs)) == Some(BinOpKind::Add),
        x86_lift_prefix(insns, (k + 1) as nat, addrs)
            == x86_lift_prefix(insns, k as nat, addrs) + x86_lift_one(insns[k], addrs),
{
    reveal_strlit("add");
    reveal_strlit("and");
    reveal_strlit("imul");
    reveal_strlit("lea");
    reveal_strlit("mov");
    reveal_strlit("movabs");
    reveal_strlit("movsx");
    reveal_strlit("movsxd");
    reveal_strlit("movzx");
    reveal_strlit("or");
    reveal_strlit("sal");
    reveal_strlit("shl");
    reveal_strlit("shr");
    reveal_strlit("sub");
    reveal_strlit("xor");
    let m = insns[k].mnemonic@;
    if m == "add"@ {
        assert(char_at("add"@, 0) != char_at("mov"@, 0));
        assert("add"@.len() != "movabs"@.len());
        assert("add"@.len() != "movzx"@.len());
        assert("add"@.len() != "movsx"@.len());
        assert("add"@.len() != "movsxd"@.len());
        assert(char_at("add"@, 0) != char_at("lea"@, 0));
    }
    if m == "sub"@ {
        assert(char_at("sub"@, 0) != char_at("mov"@, 0));
        assert("sub"@.len() != "movabs"@.len());
        assert("sub"@.len() != "movzx"@.len());
        assert("sub"@.len() != "movsx"@.len());
        assert("sub"@.len() != "movsxd"@.len());
        assert(char_at("sub"@, 0) != char_at("lea"@, 0));
        assert(char_at("sub"@, 0) != char_at("add"@, 0));
    }
    if m == "and"@ {
        assert(char_at("and"@, 0) != char_at("mov"@, 0));
        assert("and"@.len() != "movabs"@.len());
        assert("and"@.len() != "movzx"@.len());
        assert("and"@.len() != "movsx"@.len());
        assert("and"@.len() != "movsxd"@.len());
        assert(char_at("and"@, 0) != char_at("lea"@, 0));
        assert(char_at("and"@, 1) != char_at("add"@, 1));
        assert(char_at("and"@, 0) != char_at("sub"@, 0));
    }
    if m == "or"@ {
        assert("or"@.len() != "mov"@.len());
        assert("or"@.len() != "movabs"@.len());
        assert("or"@.len() != "movzx"@.len());
        assert("or"@.len() != "movsx"@.len());
        assert("or"@.len() != "movsxd"@.len());
        assert("or"@.len() != "lea"@.len());
        assert("or"@.len() != "add"@.len());
        assert("or"@.len() != "sub"@.len());
        assert("or"@.len() != "and"@.len());
    }
    if m == "xor"@ {
        assert(char_at("xor"@, 0) != char_at("mov"@, 0));
        assert("xor"@.len() != "movabs"@.len());
        assert("xor"@.len() != "movzx"@.len());
        assert("xor"@.len() != "movsx"@.len());
        assert("xor"@.len() != "movsxd"@.len());
        assert(char_at("xor"@, 0) != char_at("lea"@, 0));
        assert(char_at("xor"@, 0) != char_at("add"@, 0));
        assert(char_at("xor"@, 0) != char_at("sub"@, 0));
        assert(char_at("xor"@, 0) != char_at("and"@, 0));
        assert("xor"@.len() != "or"@.len());
    }
    if m == "shl"@ {
        assert(char_at("shl"@, 0) != char_at("mov"@, 0));
        assert("shl"@.len() != "movabs"@.len());
        assert("shl"@.len() != "movzx"@.len());
        assert("shl"@.len() != "movsx"@.len());
        assert("shl"@.len() != "movsxd"@.len());
        assert(char_at("shl"@, 0) != char_at("lea"@, 0));
        assert(char_at("shl"@, 0) != char_at("add"@, 0));
        assert(char_at("shl"@, 1) != char_at("sub"@, 1));
        assert(char_at("shl"@, 0) != char_at("and"@, 0));
        assert("shl"@.len() != "or"@.len());
        assert(char_at("shl"@, 0) != char_at("xor"@, 0));
    }
    if m == "sal"@ {
        assert(char_at("sal"@, 0) != char_at("mov"@, 0));
        assert("sal"@.len() != "movabs"@.len());
        assert("sal"@.len() != "movzx"@.len());
        assert("sal"@.len() != "movsx"@.len());
        assert("sal"@.len() != "movsxd"@.len());
        assert(char_at("sal"@, 0) != char_at("lea"@, 0));
        assert(char_at("sal"@, 0) != char_at("add"@, 0));
        assert(char_at("sal"@, 1) != char_at("sub"@, 1));
        assert(char_at("sal"@, 0) != char_at("and"@, 0));
        assert("sal"@.len() != "or"@.len());
        assert(char_at("sal"@, 0) != char_at("xor"@, 0));
    }
    if m == "shr"@ {
        assert(char_at("shr"@, 0) != char_at("mov"@, 0));
        assert("shr"@.len() != "movabs"@.len());
        assert("shr"@.len() != "movzx"@.len());
        assert("shr"@.len() != "movsx"@.len());
        assert("shr"@.len() != "movsxd"@.len());
        assert(char_at("shr"@, 0) != char_at("lea"@, 0));
        assert(char_at("shr"@, 0) != char_at("add"@, 0));
        assert(char_at("shr"@, 1) != char_at("sub"@, 1));
        assert(char_at("shr"@, 0) != char_at("and"@, 0));
        assert("shr"@.len() != "or"@.len());
        assert(char_at("shr"@, 0) != char_at("xor"@, 0));
        assert(char_at("shr"@, 2) != char_at("shl"@, 2));
        assert(char_at("shr"@, 1) != char_at("sal"@, 1));
    }
    if m == "imul"@ {
        assert("imul"@.len() != "mov"@.len());
        assert("imul"@.len() != "movabs"@.len());
        assert("imul"@.len() != "movzx"@.len());
        assert("imul"@.len() != "movsx"@.len());
        assert("imul"@.len() != "movsxd"@.len());
        assert("imul"@.len() != "lea"@.len());
        assert("imul"@.len() != "add"@.len());
        assert("imul"@.len() != "sub"@.len());
        assert("imul"@.len() != "and"@.len());
        assert("imul"@.len() != "or"@.len());
        assert("imul"@.len() != "xor"@.len());
        assert("imul"@.len() != "shl"@.len());
        assert("imul"@.len() != "sal"@.len());
        assert("imul"@.len() != "shr"@.len());
    }
    if m == "lea"@ {
        assert(char_at("lea"@, 0) != char_at("mov"@, 0));
        assert("lea"@.len() != "movabs"@.len());
        assert("lea"@.len() != "movzx"@.len());
        assert("lea"@.len() != "movsx"@.len());
        assert("lea"@.len() != "movsxd"@.len());
    }
}

/// A conditional x86 jump tests the condition its mnemonic names: `je`/`jz`
/// equality, `jne`/`jnz` inequality, and `jl`, `jg`, `jle`, `jge` (with
/// their negated spellings) the signed orderings.
pub proof fn law_x86_conditions(insns: Seq<Instruction>, k: int, addrs: Map<u64, StubCallKind>)
    requires
        0 <= k < insns.len(),
    ensures
        insns[k].mnemonic@ == "je"@ ==> lifted_condition(x86_lift_one(insns[k], addrs)) == Some(ConditionView::Equal),
        insns[k].mnemonic@ == "jz"@ ==> lifted_condition(x86_lift_one(insns[k], addrs)) == Some(ConditionView::Equal),
        insns[k].mnemonic@ == "jne"@ ==> lifted_condition(x86_lift_one(insns[k], addrs)) == Some(ConditionView::NotEqual),
        insns[k].mnemonic@ == "jnz"@ ==> lifted_condition(x86_lift_one(insns[k], addrs)) == Some(ConditionView::NotEqual),
        insns[k].mnemonic@ == "jl"@ ==> lifted_condition(x86_lift_one(insns[k], addrs)) == Some(ConditionView::LessThan),
        insns[k].mnemonic@ == "jnge"@ ==> lifted_condition(x86_lift_one(insns[k], addrs)) == Some(ConditionView::LessThan),
        insns[k].mnemonic@ == "jg"@ ==> lifted_condition(x86_lift_one(insns[k], addrs)) == Some(ConditionView::GreaterThan),
        insns[k].mnemonic@ == "jnle"@ ==> lifted_condition(x86_lift_one(insns[k], addrs)) == Some(ConditionView::GreaterThan),
        insns[k].mnemonic@ == "jle"@ ==> lifted_condition(x86_lift_one(insns[k], addrs)) == Some(ConditionView::LessOrEqual),
        insns[k].mnemonic@ == "jng"@ ==> lifted_condition(x86_lift_one(insns[k], addrs)) == Some(ConditionView::LessOrEqual),
        insns[k].mnemonic@ == "jge"@ ==> lifted_condition(x86_lift_one(insns[k], addrs)) == Some(ConditionView::GreaterOrEqual),
        insns[k].mnemonic@ == "jnl"@ ==> lifted_condition(x86_lift_one(insns[k], addrs)) == Some(ConditionView::GreaterOrEqual),
{
    reveal_strlit("add");
    reveal_strlit("and");
    reveal_strlit("cmp");
    reveal_strlit("imul");
    reveal_strlit("je");
    reveal_strlit("jg");
    reveal_strlit("jge");
    reveal_strlit("jl");
    reveal_strlit("jle");
    reveal_strlit("jmp");
    reveal_strlit("jne");
    reveal_strlit("jng");
    reveal_strlit("jnge");
    reveal_strlit("jnl");
    reveal_strlit("jnle");
    reveal_strlit("jnz");
    reveal_strlit("jz");
    reveal_strlit("lea");
    reveal_strlit("mov");
    reveal_strlit("movabs");
    reveal_strlit("movsx");
    reveal_strlit("movsxd");
    reveal_strlit("movzx");
    reveal_strlit("or");
    reveal_strlit("sal");
    reveal_strlit("shl");
    reveal_strlit("shr");
    reveal_strlit("sub");
    reveal_strlit("test");
    reveal_strlit("xor");
    let m = insns[k].mnemonic@;
    if m == "je"@ {
        assert("je"@.len() != "mov"@.len());
        assert("je"@.len() != "movabs"@.len());
        assert("je"@.len() != "movzx"@.len());
        assert("je"@.len() != "movsx"@.len());
        assert("je"@.len() != "movsxd"@.len());
        assert("je"@.len() != "lea"@.len());
        assert("je"@.len() != "add"@.len());
        assert("je"@.len() != "sub"@.len());
        assert("je"@.len() != "and"@.len());
        assert(char_at("je"@, 0) != char_at("or"@, 0));
        assert("je"@.len() != "xor"@.len());
        assert("je"@.len() != "shl"@.len());
        assert("je"@.len() != "sal"@.len());
        assert("je"@.len() != "shr"@.len());
        assert("je"@.len() != "imul"@.len());
        assert("je"@.len() != "cmp"@.len());
        assert("je"@.len() != "test"@.len());
        assert("je"@.len() != "jmp"@.len());
    }
    if m == "jz"@ {
        assert("jz"@.len() != "mov"@.len());
        assert("jz"@.len() != "movabs"@.len());
        assert("jz"@.len() != "movzx"@.len());
        assert("jz"@.len() != "movsx"@.len());
        assert("jz"@.len() != "movsxd"@.len());
        assert("jz"@.len() != "lea"@.len());
        assert("jz"@.len() != "add"@.len());
        assert("jz"@.len() != "sub"@.len());
        assert("jz"@.len() != "and"@.len());
        assert(char_at("jz"@, 0) != char_at("or"@, 0));
        assert("jz"@.len() != "xor"@.len());
        assert("jz"@.len() != "shl"@.len());
        assert("jz"@.len() != "sal"@.len());
        assert("jz"@.len() != "shr"@.len());
        assert("jz"@.len() != "imul"@.len());
        assert("jz"@.len() != "cmp"@.len());
        assert("jz"@.len() != "test"@.len());
        assert("jz"@.len() != "jmp"@.len());
    }
    if m == "jne"@ {
        assert(char_at("jne"@, 0) != char_at("mov"@, 0));
        assert("jne"@.len() != "movabs"@.len());
        assert("jne"@.len() != "movzx"@.len());
        assert("jne"@.len() != "movsx"@.len());
        assert("jne"@.len() != "movsxd"@.len());
        assert(char_at("jne"@, 0) != char_at("lea"@, 0));
        assert(char_at("jne"@, 0) != char_at("add"@, 0));
        assert(char_at("jne"@, 0) != char_at("sub"@, 0));
        assert(char_at("jne"@, 0) != char_at("and"@, 0));
        assert("jne"@.len() != "or"@.len());
        assert(char_at("jne"@, 0) != char_at("xor"@, 0));
        assert(char_at("jne"@, 0) != char_at("shl"@, 0));
        assert(char_at("jne"@, 0) != char_at("sal"@, 0));
        assert(char_at("jne"@, 0) != char_at("shr"@, 0));
        assert("jne"@.len() != "imul"@.len());
        assert(char_at("jne"@, 0) != char_at("cmp"@, 0));
        assert("jne"@.len() != "test"@.len());
        assert(char_at("jne"@, 1) != char_at("jmp"@, 1));
        assert("jne"@.len() != "je"@.len());
        assert("jne"@.len() != "jz"@.len());
    }
    if m == "jnz"@ {
        assert(char_at("jnz"@, 0) != char_at("mov"@, 0));
        assert("jnz"@.len() != "movabs"@.len());
        assert("jnz"@.len() != "movzx"@.len());
        assert("jnz"@.len() != "movsx"@.len());
        assert("jnz"@.len() != "movsxd"@.len());
        assert(char_at("jnz"@, 0) != char_at("lea"@, 0));
        assert(char_at("jnz"@, 0) != char_at("add"@, 0));
        assert(char_at("jnz"@, 0) != char_at("sub"@, 0));
        assert(char_at("jnz"@, 0) != char_at("and"@, 0));
        assert("jnz"@.len() != "or"@.len());
        assert(char_at("jnz"@, 0) != char_at("xor"@, 0));
        assert(char_at("jnz"@, 0) != char_at("shl"@, 0));
        assert(char_at("jnz"@, 0) != char_at("sal"@, 0));
        assert(char_at("jnz"@, 0) != char_at("shr"@, 0));
        assert("jnz"@.len() != "imul"@.len());
        assert(char_at("jnz"@, 0) != char_at("cmp"@, 0));
        assert("jnz"@.len() != "test"@.len());
        assert(char_at("jnz"@, 1) != char_at("jmp"@, 1));
        assert("jnz"@.len() != "je"@.len());
        assert("jnz"@.len() != "jz"@.len());
    }
    if m == "jl"@ {
        assert("jl"@.len() != "mov"@.len());
        assert("jl"@.len() != "movabs"@.len());
        assert("jl"@.len() != "movzx"@.len());
        assert("jl"@.len() != "movsx"@.len());
        assert("jl"@.len() != "movsxd"@.len());
        assert("jl"@.len() != "lea"@.len());
        assert("jl"@.len() != "add"@.len());
        assert("jl"@.len() != "sub"@.len());
        assert("jl"@.len() != "and"@.len());
        assert(char_at("jl"@, 0) != char_at("or"@, 0));
        assert("jl"@.len() != "xor"@.len());
        assert("jl"@.len() != "shl"@.len());
        assert("jl"@.len() != "sal"@.len());
        assert("jl"@.len() != "shr"@.len());
        assert("jl"@.len() != "imul"@.len());
        assert("jl"@.len() != "cmp"@.len());
        assert("jl"@.len() != "test"@.len());
        assert("jl"@.len() != "jmp"@.len());
        assert(char_at("jl"@, 1) != char_at("je"@, 1));
        assert(char_at("jl"@, 1) != char_at("jz"@, 1));
        assert("jl"@.len() != "jne"@.len());
        assert("jl"@.len() != "jnz"@.len());
    }
    if m == "jnge"@ {
        assert("jnge"@.len() != "mov"@.len());
        assert("jnge"@.len() != "movabs"@.len());
        assert("jnge"@.len() != "movzx"@.len());
        assert("jnge"@.len() != "movsx"@.len());
        assert("jnge"@.len() != "movsxd"@.len());
        assert("jnge"@.len() != "lea"@.len());
        assert("jnge"@.len() != "add"@.len());
        assert("jnge"@.len() != "sub"@.len());
        assert("jnge"@.len() != "and"@.len());
        assert("jnge"@.len() != "or"@.len());
        assert("jnge"@.len() != "xor"@.len());
        assert("jnge"@.len() != "shl"@.len());
        assert("jnge"@.len() != "sal"@.len());
        assert("jnge"@.len() != "shr"@.len());
        assert(char_at("jnge"@, 0) != char_at("imul"@, 0));
        assert("jnge"@.len() != "cmp"@.len());
        assert(char_at("jnge"@, 0) != char_at("test"@, 0));
        assert("jnge"@.len() != "jmp"@.len());
        assert("jnge"@.len() != "je"@.len());
        assert("jnge"@.len() != "jz"@.len());
        assert("jnge"@.len() != "jne"@.len());
        assert("jnge"@.len() != "jnz"@.len());
    }
    if m == "jg"@ {
        assert("jg"@.len() != "mov"@.len());
        assert("jg"@.len() != "movabs"@.len());
        assert("jg"@.len() != "movzx"@.len());
        assert("jg"@.len() != "movsx"@.len());
        assert("jg"@.len() != "movsxd"@.len());
        assert("jg"@.len() != "lea"@.len());
        assert("jg"@.len() != "add"@.len());
        assert("jg"@.len() != "sub"@.len());
        assert("jg"@.len() != "and"@.len());
        assert(char_at("jg"@, 0) != char_at("or"@, 0));
        assert("jg"@.len() != "xor"@.len());
        assert("jg"@.len() != "shl"@.len());
        assert("jg"@.len() != "sal"@.len());
        assert("jg"@.len() != "shr"@.len());
        assert("jg"@.len() != "imul"@.len());
        assert("jg"@.len() != "cmp"@.len());
        assert("jg"@.len() != "test"@.len());
        assert("jg"@.len() != "jmp"@.len());
        assert(char_at("jg"@, 1) != char_at("je"@, 1));
        assert(char_at("jg"@, 1) != char_at("jz"@, 1));
        assert("jg"@.len() != "jne"@.len());
        assert("jg"@.len() != "jnz"@.len());
        assert(char_at("jg"@, 1) != char_at("jl"@, 1));
        assert("jg"@.len() != "jnge"@.len());
    }
    if m == "jnle"@ {
        assert("jnle"@.len() != "mov"@.len());
        assert("jnle"@.len() != "movabs"@.len());
        assert("jnle"@.len() != "movzx"@.len());
        assert("jnle"@.len() != "movsx"@.len());
        assert("jnle"@.len() != "movsxd"@.len());
        assert("jnle"@.len() != "lea"@.len());
        assert("jnle"@.len() != "add"@.len());
        assert("jnle"@.len() != "sub"@.len());
        assert("jnle"@.len() != "and"@.len());
        assert("jnle"@.len() != "or"@.len());
        assert("jnle"@.len() != "xor"@.len());
        assert("jnle"@.len() != "shl"@.len());
        assert("jnle"@.len() != "sal"@.len());
        assert("jnle"@.len() != "shr"@.len());
        assert(char_at("jnle"@, 0) != char_at("imul"@, 0));
        assert("jnle"@.len() != "cmp"@.len());
        assert(char_at("jnle"@, 0) != char_at("test"@, 0));
        assert("jnle"@.len() != "jmp"@.len());
        assert("jnle"@.len() != "je"@.len());
        assert("jnle"@.len() != "jz"@.len());
        assert("jnle"@.len() != "jne"@.len());
        assert("jnle"@.len() != "jnz"@.len());
        assert("jnle"@.len() != "jl"@.len());
        assert(char_at("jnle"@, 2) != char_at("jnge"@, 2));
    }
    if m == "jle"@ {
        assert(char_at("jle"@, 0) != char_at("mov"@, 0));
        assert("jle"@.len() != "movabs"@.len());
        assert("jle"@.len() != "movzx"@.len());
        assert("jle"@.len() != "movsx"@.len());
        assert("jle"@.len() != "movsxd"@.len());
        assert(char_at("jle"@, 0) != char_at("lea"@, 0));
        assert(char_at("jle"@, 0) != char_at("add"@, 0));
        assert(char_at("jle"@, 0) != char_at("sub"@, 0));
        assert(char_at("jle"@, 0) != char_at("and"@, 0));
        assert("jle"@.len() != "or"@.len());
        assert(char_at("jle"@, 0) != char_at("xor"@, 0));
        assert(char_at("jle"@, 0) != char_at("shl"@, 0));
        assert(char_at("jle"@, 0) != char_at("sal"@, 0));
        assert(char_at("jle"@, 0) != char_at("shr"@, 0));
        assert("jle"@.len() != "imul"@.len());
        assert(char_at("jle"@, 0) != char_at("cmp"@, 0));
        assert("jle"@.len() != "test"@.len());
        assert(char_at("jle"@, 1) != char_at("jmp"@, 1));
        assert("jle"@.len() != "je"@.len());
        assert("jle"@.len() != "jz"@.len());
        assert(char_at("jle"@, 1) != char_at("jne"@, 1));
        assert(char_at("jle"@, 1) != char_at("jnz"@, 1));
        assert("jle"@.len() != "jl"@.len());
        assert("jle"@.len() != "jnge"@.len());
        assert("jle"@.len() != "jg"@.len());
        assert("jle"@.len() != "jnle"@.len());
    }
    if m == "jng"@ {
        assert(char_at("jng"@, 0) != char_at("mov"@, 0));
        assert("jng"@.len() != "movabs"@.len());
        assert("jng"@.len() != "movzx"@.len());
        assert("jng"@.len() != "movsx"@.len());
        assert("jng"@.len() != "movsxd"@.len());
        assert(char_at("jng"@, 0) != char_at("lea"@, 0));
        assert(char_at("jng"@, 0) != char_at("add"@, 0));
        assert(char_at("jng"@, 0) != char_at("sub"@, 0));
        assert(char_at("jng"@, 0) != char_at("and"@, 0));
        assert("jng"@.len() != "or"@.len());
        assert(char_at("jng"@, 0) != char_at("xor"@, 0));
        assert(char_at("jng"@, 0) != char_at("shl"@, 0));
        assert(char_at("jng"@, 0) != char_at("sal"@, 0));
        assert(char_at("jng"@, 0) != char_at("shr"@, 0));
        assert("jng"@.len() != "imul"@.len());
        assert(char_at("jng"@, 0) != char_at("cmp"@, 0));
        assert("jng"@.len() != "test"@.len());
        assert(char_at("jng"@, 1) != char_at("jmp"@, 1));
        assert("jng"@.len() != "je"@.len());
        assert("jng"@.len() != "jz"@.len());
        assert(char_at("jng"@, 2) != char_at("jne"@, 2));
        assert(char_at("jng"@, 2) != char_at("jnz"@, 2));
        assert("jng"@.len() != "jl"@.len());
        assert("jng"@.len() != "jnge"@.len());
        assert("jng"@.len() != "jg"@.len());
        assert("jng"@.len() != "jnle"@.len());
    }
    if m == "jge"@ {
        assert(char_at("jge"@, 0) != char_at("mov"@, 0));
        assert("jge"@.len() != "movabs"@.len());
        assert("jge"@.len() != "movzx"@.len());
        assert("jge"@.len() != "movsx"@.len());
        assert("jge"@.len() != "movsxd"@.len());
        assert(char_at("jge"@, 0) != char_at("lea"@, 0));
        assert(char_at("jge"@, 0) != char_at("add"@, 0));
        assert(char_at("jge"@, 0) != char_at("sub"@, 0));
        assert(char_at("jge"@, 0) != char_at("and"@, 0));
        assert("jge"@.len() != "or"@.len());
        assert(char_at("jge"@, 0) != char_at("xor"@, 0));
        assert(char_at("jge"@, 0) != char_at("shl"@, 0));
        assert(char_at("jge"@, 0) != char_at("sal"@, 0));
        assert(char_at("jge"@, 0) != char_at("shr"@, 0));
        assert("jge"@.len() != "imul"@.len());
        assert(char_at("jge"@, 0) != char_at("cmp"@, 0));
        assert("jge"@.len() != "test"@.len());
        assert(char_at("jge"@, 1) != char_at("jmp"@, 1));
        assert("jge"@.len() != "je"@.len());
        assert("jge"@.len() != "jz"@.len());
        assert(char_at("jge"@, 1) != char_at("jne"@, 1));
        assert(char_at("jge"@, 1) != char_at("jnz"@, 1));
        assert("jge"@.len() != "jl"@.len());
        assert("jge"@.len() != "jnge"@.len());
        assert("jge"@.len() != "jg"@.len());
        assert("jge"@.len() != "jnle"@.len());
        assert(char_at("jge"@, 1) != char_at("jle"@, 1));
        assert(char_at("jge"@, 1) != char_at("jng"@, 1));
    }
    if m == "jnl"@ {
        assert(char_at("jnl"@, 0) != char_at("mov"@, 0));
        assert("jnl"@.len() != "movabs"@.len());
        assert("jnl"@.len() != "movzx"@.len());
        assert("jnl"@.len() != "movsx"@.len());
        assert("jnl"@.len() != "movsxd"@.len());
        assert(char_at("jnl"@, 0) != char_at("lea"@, 0));
        assert(char_at("jnl"@, 0) != char_at("add"@, 0));
        assert(char_at("jnl"@, 0) != char_at("sub"@, 0));
        assert(char_at("jnl"@, 0) != char_at("and"@, 0));
        assert("jnl"@.len() != "or"@.len());
        assert(char_at("jnl"@, 0) != char_at("xor"@, 0));
        assert(char_at("jnl"@, 0) != char_at("shl"@, 0));
        assert(char_at("jnl"@, 0) != char_at("sal"@, 0));
        assert(char_at("jnl"@, 0) != char_at("shr"@, 0));
        assert("jnl"@.len() != "imul"@.len());
        assert(char_at("jnl"@, 0) != char_at("cmp"@, 0));
        assert("jnl"@.len() != "test"@.len());
        assert(char_at("jnl"@, 1) != char_at("jmp"@, 1));
        assert("jnl"@.len() != "je"@.len());
        assert("jnl"@.len() != "jz"@.len());
        assert(char_at("jnl"@, 2) != char_at("jne"@, 2));
        assert(char_at("jnl"@, 2) != char_at("jnz"@, 2));
        assert("jnl"@.len() != "jl"@.len());
        assert("jnl"@.len() != "jnge"@.len());
        assert("jnl"@.len() != "jg"@.len());
        assert("jnl"@.len() != "jnle"@.len());
        assert(char_at("jnl"@, 1) != char_at("jle"@, 1));
        assert(char_at("jnl"@, 2) != char_at("jng"@, 2));
    }
}

} // verus!
