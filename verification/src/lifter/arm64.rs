//! Lifting of ARM64 instructions into IR.

use vstd::prelude::*;
use crate::disasm::common::Instruction;
use crate::snapshot::SnapshotAddr;
use crate::text::{chars_is, chars_of};
use super::ir::{
    BinOpKind, BlockId, CallKind, CallKindView, Condition, ConditionView, IRView, Operand,
    OperandView, Reg, IR, char_at, ir_list_view, lifted_binop, lifted_condition, operands_view,
};
use super::operands::{
    fallthrough, fallthrough_fits, fallthrough_target, get_imm, get_imm_or_reg, get_mem_disp,
    get_reg_id, imm_operand, imm_or_reg, mem_operand, reg_operand, target_block, target_of,
    unknown, unknown_ir,
};
use super::resolvers::{map_lookup, PoolResolver, StubResolver};
use super::LiftError;

verus! {

/// X27 holds the Object Pool pointer in Dart AOT code.
pub const PP_REG: u16 = 27;

/// X22 holds Dart null.
pub const NULL_REG: u16 = 22;

/// The calling-convention argument list `r0, r1, r2, r3`.
pub open spec fn four_args() -> Seq<OperandView> {
    seq![
        OperandView::Reg(Reg(0)),
        OperandView::Reg(Reg(1)),
        OperandView::Reg(Reg(2)),
        OperandView::Reg(Reg(3)),
    ]
}

/// `LDR`: a pool load through X27, null through X22, a field load, or an immediate.
pub open spec fn arm64_ldr(insn: Instruction, pool: Map<u64, Seq<char>>) -> Seq<IRView> {
    let dst = reg_operand(insn, 0);
    match mem_operand(insn, 1) {
        Some((base, disp)) => if base.0 == PP_REG {
            seq![IRView::LoadPool { dst, addr: SnapshotAddr(disp as u64), resolved: map_lookup(pool, disp as u64) }]
        } else if base.0 == NULL_REG {
            seq![IRView::Assign(dst, OperandView::Imm(0))]
        } else {
            seq![IRView::LoadField { dst, base, offset: disp as u32, field_name: None }]
        },
        None => match imm_operand(insn, 1) {
            Some(imm) => seq![IRView::Assign(dst, OperandView::Imm(imm))],
            None => seq![unknown_ir(insn)],
        },
    }
}

/// `STR`: a field store.
pub open spec fn arm64_str(insn: Instruction) -> Seq<IRView> {
    match mem_operand(insn, 1) {
        Some((base, disp)) => seq![
            IRView::StoreField {
                base,
                offset: disp as u32,
                value: OperandView::Reg(reg_operand(insn, 0)),
                field_name: None,
            },
        ],
        None => seq![unknown_ir(insn)],
    }
}

/// `MOV` and its variants: an assignment of an immediate or a register.
pub open spec fn arm64_mov(insn: Instruction) -> Seq<IRView> {
    seq![IRView::Assign(reg_operand(insn, 0), imm_or_reg(insn, 1))]
}

/// A three-operand arithmetic or bitwise instruction.
pub open spec fn arm64_binop(insn: Instruction, op: BinOpKind) -> Seq<IRView> {
    seq![
        IRView::BinOp {
            dst: reg_operand(insn, 0),
            op,
            lhs: OperandView::Reg(reg_operand(insn, 1)),
            rhs: imm_or_reg(insn, 2),
        },
    ]
}

/// `CMP`/`CMN`: a null check when comparing against X22, else a comparison.
pub open spec fn arm64_compare(insn: Instruction) -> Seq<IRView> {
    let rhs = imm_or_reg(insn, 1);
    if rhs == OperandView::Reg(Reg(NULL_REG)) {
        seq![IRView::NullCheck(reg_operand(insn, 0))]
    } else {
        seq![IRView::Compare { lhs: OperandView::Reg(reg_operand(insn, 0)), rhs }]
    }
}

/// `B`: a jump to the branch target.
pub open spec fn arm64_jump(insn: Instruction) -> Seq<IRView> {
    match insn.branch_target {
        Some(t) => seq![IRView::Jump(t as BlockId)],
        None => seq![unknown_ir(insn)],
    }
}

/// The condition a `B.cond` mnemonic tests.
pub open spec fn arm64_condition(m: Seq<char>) -> ConditionView {
    if m == "b.eq"@ {
        ConditionView::Equal
    } else if m == "b.ne"@ {
        ConditionView::NotEqual
    } else if m == "b.lt"@ {
        ConditionView::LessThan
    } else if m == "b.gt"@ {
        ConditionView::GreaterThan
    } else if m == "b.le"@ {
        ConditionView::LessOrEqual
    } else if m == "b.ge"@ {
        ConditionView::GreaterOrEqual
    } else {
        ConditionView::NotEqual
    }
}

/// A two-way branch on `condition` to the target, falling through otherwise.
pub open spec fn branch_to(insn: Instruction, condition: ConditionView) -> Seq<IRView> {
    seq![
        IRView::Branch {
            condition,
            true_target: target_block(insn.branch_target),
            false_target: fallthrough_target(insn),
        },
    ]
}

/// `CBZ`/`CBNZ`/`TBZ`/`TBNZ`: a branch on the register being zero (`zero_form`) or not.
pub open spec fn arm64_test_branch(insn: Instruction, zero_form: bool) -> Seq<IRView> {
    let reg = reg_operand(insn, 0);
    branch_to(
        insn,
        if zero_form {
            ConditionView::False(reg)
        } else {
            ConditionView::True(reg)
        },
    )
}

/// A call of a stub with the receiver in r0.
pub open spec fn stub_call(k: super::ir::StubCallKind) -> IRView {
    IRView::Call { dst: Some(Reg(0)), kind: CallKindView::Stub(k), args: seq![OperandView::Reg(Reg(0))] }
}

/// `BL`: a call of a known stub, or a direct call with four arguments.
pub open spec fn arm64_bl(insn: Instruction, addrs: Map<u64, super::ir::StubCallKind>) -> Seq<IRView> {
    let target = match insn.branch_target {
        Some(t) => t,
        None => 0,
    };
    match map_lookup(addrs, target) {
        Some(k) => seq![stub_call(k)],
        None => seq![
            IRView::Call {
                dst: Some(Reg(0)),
                kind: CallKindView::Direct(SnapshotAddr(target)),
                args: four_args(),
            },
        ],
    }
}

/// `BLR`: after `LDR Xn, [X27, #off]` a call of the stub or pool entry at
/// that offset, otherwise a closure call through the register.
pub open spec fn arm64_blr(
    insns: Seq<Instruction>,
    idx: int,
    offs: Map<u64, super::ir::StubCallKind>,
) -> Seq<IRView> {
    let insn = insns[idx];
    let closure = seq![
        IRView::Call {
            dst: Some(Reg(0)),
            kind: CallKindView::Closure(reg_operand(insn, 0)),
            args: seq![OperandView::Reg(Reg(0))],
        },
    ];
    if idx > 0 && insns[idx - 1].mnemonic@ == "ldr"@ {
        match mem_operand(insns[idx - 1], 1) {
            Some((base, disp)) => if base.0 == PP_REG {
                match map_lookup(offs, disp as u64) {
                    Some(k) => seq![stub_call(k)],
                    None => seq![
                        IRView::Call {
                            dst: Some(Reg(0)),
                            kind: CallKindView::Direct(SnapshotAddr(disp as u64)),
                            args: seq![OperandView::Reg(Reg(0))],
                        },
                    ],
                }
            } else {
                closure
            },
            None => closure,
        }
    } else {
        closure
    }
}

/// Whether a mnemonic is one of the conditional branches ARM64 lifting recognizes.
pub open spec fn is_arm64_cond_branch(m: Seq<char>) -> bool {
    m == "b.eq"@ || m == "b.ne"@ || m == "b.lt"@ || m == "b.gt"@ || m == "b.le"@ || m == "b.ge"@
        || m == "b.hi"@ || m == "b.lo"@ || m == "b.hs"@ || m == "b.ls"@
}

/// The IR for the instruction at `idx`.
pub open spec fn arm64_lift_one(
    insns: Seq<Instruction>,
    idx: int,
    pool: Map<u64, Seq<char>>,
    addrs: Map<u64, super::ir::StubCallKind>,
    offs: Map<u64, super::ir::StubCallKind>,
) -> Seq<IRView> {
    let insn = insns[idx];
    let m = insn.mnemonic@;
    if m == "ldr"@ {
        arm64_ldr(insn, pool)
    } else if m == "str"@ {
        arm64_str(insn)
    } else if m == "mov"@ || m == "movz"@ || m == "movk"@ || m == "movn"@ {
        arm64_mov(insn)
    } else if m == "add"@ || m == "adds"@ {
        arm64_binop(insn, BinOpKind::Add)
    } else if m == "sub"@ || m == "subs"@ {
        arm64_binop(insn, BinOpKind::Sub)
    } else if m == "mul"@ || m == "madd"@ {
        arm64_binop(insn, BinOpKind::Mul)
    } else if m == "sdiv"@ || m == "udiv"@ {
        arm64_binop(insn, BinOpKind::Div)
    } else if m == "and"@ || m == "ands"@ {
        arm64_binop(insn, BinOpKind::And)
    } else if m == "orr"@ {
        arm64_binop(insn, BinOpKind::Or)
    } else if m == "eor"@ {
        arm64_binop(insn, BinOpKind::Xor)
    } else if m == "lsl"@ {
        arm64_binop(insn, BinOpKind::Shl)
    } else if m == "lsr"@ {
        arm64_binop(insn, BinOpKind::Shr)
    } else if m == "asr"@ {
        arm64_binop(insn, BinOpKind::Asr)
    } else if m == "cmp"@ || m == "cmn"@ {
        arm64_compare(insn)
    } else if m == "b"@ {
        arm64_jump(insn)
    } else if is_arm64_cond_branch(m) {
        branch_to(insn, arm64_condition(m))
    } else if m == "cbz"@ || m == "cbnz"@ {
        arm64_test_branch(insn, m == "cbz"@)
    } else if m == "tbz"@ || m == "tbnz"@ {
        arm64_test_branch(insn, m == "tbz"@)
    } else if m == "bl"@ {
        arm64_bl(insn, addrs)
    } else if m == "blr"@ {
        arm64_blr(insns, idx, offs)
    } else if m == "ret"@ {
        seq![IRView::Return(Some(OperandView::Reg(Reg(0))))]
    } else if m == "stp"@ || m == "ldp"@ || m == "nop"@ {
        Seq::empty()
    } else {
        seq![unknown_ir(insn)]
    }
}

/// The IR for the first `n` instructions, in order.
pub open spec fn arm64_lift_prefix(
    insns: Seq<Instruction>,
    n: nat,
    pool: Map<u64, Seq<char>>,
    addrs: Map<u64, super::ir::StubCallKind>,
    offs: Map<u64, super::ir::StubCallKind>,
) -> Seq<IRView>
    decreases n,
{
    if n == 0 {
        Seq::empty()
    } else {
        arm64_lift_prefix(insns, (n - 1) as nat, pool, addrs, offs) + arm64_lift_one(
            insns,
            n - 1,
            pool,
            addrs,
            offs,
        )
    }
}

fn lift_ldr(insn: &Instruction, pool_resolver: &PoolResolver) -> (r: Vec<IR>)
    ensures
        ir_list_view(r@) == arm64_ldr(*insn, pool_resolver@),
{
    let dst = get_reg_id(insn, 0);
    if let Some((base, disp)) = get_mem_disp(insn, 1) {
        if base.0 == PP_REG {
            let pool_offset = disp as u64;
            let resolved = pool_resolver.resolve_offset(pool_offset);
            let r = vec![IR::LoadPool { dst, addr: SnapshotAddr(pool_offset), resolved }];
            assert(ir_list_view(r@) =~= arm64_ldr(*insn, pool_resolver@));
            return r;
        }
        if base.0 == NULL_REG {
            let r = vec![IR::Assign(dst, Operand::Imm(0))];
            assert(ir_list_view(r@) =~= arm64_ldr(*insn, pool_resolver@));
            return r;
        }
        let r = vec![IR::LoadField { dst, base, offset: disp as u32, field_name: None }];
        assert(ir_list_view(r@) =~= arm64_ldr(*insn, pool_resolver@));
        return r;
    }
    if let Some(imm) = get_imm(insn, 1) {
        let r = vec![IR::Assign(dst, Operand::Imm(imm))];
        assert(ir_list_view(r@) =~= arm64_ldr(*insn, pool_resolver@));
        return r;
    }
    let r = vec![unknown(insn)];
    assert(ir_list_view(r@) =~= arm64_ldr(*insn, pool_resolver@));
    r
}

fn lift_str(insn: &Instruction) -> (r: Vec<IR>)
    ensures
        ir_list_view(r@) == arm64_str(*insn),
{
    let src = get_reg_id(insn, 0);
    if let Some((base, disp)) = get_mem_disp(insn, 1) {
        let r = vec![IR::StoreField { base, offset: disp as u32, value: Operand::Reg(src), field_name: None }];
        assert(ir_list_view(r@) =~= arm64_str(*insn));
        return r;
    }
    let r = vec![unknown(insn)];
    assert(ir_list_view(r@) =~= arm64_str(*insn));
    r
}

fn lift_mov(insn: &Instruction) -> (r: Vec<IR>)
    ensures
        ir_list_view(r@) == arm64_mov(*insn),
{
    let dst = get_reg_id(insn, 0);
    let r = vec![IR::Assign(dst, get_imm_or_reg(insn, 1))];
    assert(ir_list_view(r@) =~= arm64_mov(*insn));
    r
}

fn lift_binop(insn: &Instruction, op: BinOpKind) -> (r: Vec<IR>)
    ensures
        ir_list_view(r@) == arm64_binop(*insn, op),
{
    let dst = get_reg_id(insn, 0);
    let lhs = Operand::Reg(get_reg_id(insn, 1));
    let rhs = get_imm_or_reg(insn, 2);
    let r = vec![IR::BinOp { dst, op, lhs, rhs }];
    assert(ir_list_view(r@) =~= arm64_binop(*insn, op));
    r
}

fn lift_compare(insn: &Instruction) -> (r: Vec<IR>)
    ensures
        ir_list_view(r@) == arm64_compare(*insn),
{
    let lhs_reg = get_reg_id(insn, 0);
    let rhs = get_imm_or_reg(insn, 1);
    if let Operand::Reg(rr) = &rhs {
        if rr.0 == NULL_REG {
            let r = vec![IR::NullCheck(lhs_reg)];
            assert(ir_list_view(r@) =~= arm64_compare(*insn));
            return r;
        }
    }
    let r = vec![IR::Compare { lhs: Operand::Reg(lhs_reg), rhs }];
    assert(ir_list_view(r@) =~= arm64_compare(*insn));
    r
}

fn lift_unconditional_branch(insn: &Instruction) -> (r: Vec<IR>)
    ensures
        ir_list_view(r@) == arm64_jump(*insn),
{
    if let Some(target) = insn.branch_target {
        let r = vec![IR::Jump(target as BlockId)];
        assert(ir_list_view(r@) =~= arm64_jump(*insn));
        r
    } else {
        let r = vec![unknown(insn)];
        assert(ir_list_view(r@) =~= arm64_jump(*insn));
        r
    }
}

fn condition_of(m: &[char]) -> (c: Condition)
    ensures
        c@ == arm64_condition(m@),
{
    if chars_is(m, "b.eq") {
        Condition::Equal
    } else if chars_is(m, "b.ne") {
        Condition::NotEqual
    } else if chars_is(m, "b.lt") {
        Condition::LessThan
    } else if chars_is(m, "b.gt") {
        Condition::GreaterThan
    } else if chars_is(m, "b.le") {
        Condition::LessOrEqual
    } else if chars_is(m, "b.ge") {
        Condition::GreaterOrEqual
    } else {
        Condition::NotEqual
    }
}

fn branch_ir(insn: &Instruction, condition: Condition) -> (r: Vec<IR>)
    requires
        fallthrough_fits(*insn),
    ensures
        ir_list_view(r@) == branch_to(*insn, condition@),
{
    let target = target_of(insn.branch_target);
    let ft = fallthrough(insn);
    let ghost cv = condition@;
    let r = vec![IR::Branch { condition, true_target: target, false_target: ft }];
    assert(ir_list_view(r@) =~= branch_to(*insn, cv));
    r
}

fn lift_test_branch(insn: &Instruction, zero_form: bool) -> (r: Vec<IR>)
    requires
        fallthrough_fits(*insn),
    ensures
        ir_list_view(r@) == arm64_test_branch(*insn, zero_form),
{
    let reg = get_reg_id(insn, 0);
    let condition = if zero_form {
        Condition::False(reg)
    } else {
        Condition::True(reg)
    };
    branch_ir(insn, condition)
}

/// The argument list holding only r0.
pub fn r0_args() -> (v: Vec<Operand>)
    ensures
        operands_view(v@) == seq![OperandView::Reg(Reg(0))],
{
    let v = vec![Operand::Reg(Reg(0))];
    assert(operands_view(v@) =~= seq![OperandView::Reg(Reg(0))]);
    v
}

/// The argument list `r0, r1, r2, r3`.
pub fn four_args_vec() -> (v: Vec<Operand>)
    ensures
        operands_view(v@) == four_args(),
{
    let v = vec![Operand::Reg(Reg(0)), Operand::Reg(Reg(1)), Operand::Reg(Reg(2)), Operand::Reg(Reg(3))];
    assert(operands_view(v@) =~= four_args());
    v
}

fn call_stub(k: super::ir::StubCallKind) -> (r: IR)
    ensures
        r@ == stub_call(k),
{
    let r = IR::Call { dst: Some(Reg(0)), kind: CallKind::Stub(k), args: r0_args() };
    assert(r@ =~= stub_call(k));
    r
}

fn lift_bl(insn: &Instruction, stub_resolver: &StubResolver) -> (r: Vec<IR>)
    ensures
        ir_list_view(r@) == arm64_bl(*insn, stub_resolver.addresses()),
{
    let target = match insn.branch_target {
        Some(t) => t,
        None => 0,
    };
    if let Some(stub_kind) = stub_resolver.resolve_address(target) {
        let r = vec![call_stub(stub_kind)];
        assert(ir_list_view(r@) =~= arm64_bl(*insn, stub_resolver.addresses()));
        return r;
    }
    let c = IR::Call {
        dst: Some(Reg(0)),
        kind: CallKind::Direct(SnapshotAddr(target)),
        args: four_args_vec(),
    };
    assert(c@ =~= IRView::Call {
        dst: Some(Reg(0)),
        kind: CallKindView::Direct(SnapshotAddr(target)),
        args: four_args(),
    });
    let r = vec![c];
    assert(ir_list_view(r@) =~= arm64_bl(*insn, stub_resolver.addresses()));
    r
}

fn lift_blr(insns: &[Instruction], idx: usize, stub_resolver: &StubResolver) -> (r: Vec<IR>)
    requires
        idx < insns@.len(),
    ensures
        ir_list_view(r@) == arm64_blr(insns@, idx as int, stub_resolver.pool_offsets()),
{
    let insn = &insns[idx];
    let target_reg = get_reg_id(insn, 0);
    if idx > 0 {
        let prev = &insns[idx - 1];
        let pm = chars_of(prev.mnemonic.as_str());
        if chars_is(pm.as_slice(), "ldr") {
            if let Some((base, disp)) = get_mem_disp(prev, 1) {
                if base.0 == PP_REG {
                    if let Some(stub_kind) = stub_resolver.resolve_pool_offset(disp as u64) {
                        let r = vec![call_stub(stub_kind)];
                        assert(ir_list_view(r@) =~= arm64_blr(insns@, idx as int, stub_resolver.pool_offsets()));
                        return r;
                    }
                    let c = IR::Call {
                        dst: Some(Reg(0)),
                        kind: CallKind::Direct(SnapshotAddr(disp as u64)),
                        args: r0_args(),
                    };
                    let r = vec![c];
                    assert(ir_list_view(r@) =~= arm64_blr(insns@, idx as int, stub_resolver.pool_offsets()));
                    return r;
                }
            }
        }
    }
    let c = IR::Call {
        dst: Some(Reg(0)),
        kind: CallKind::Closure(target_reg),
        args: r0_args(),
    };
    let r = vec![c];
    assert(ir_list_view(r@) =~= arm64_blr(insns@, idx as int, stub_resolver.pool_offsets()));
    r
}

fn lift_single_arm64(
    insns: &[Instruction],
    idx: usize,
    pool_resolver: &PoolResolver,
    stub_resolver: &StubResolver,
) -> (r: Vec<IR>)
    requires
        idx < insns@.len(),
        fallthrough_fits(insns@[idx as int]),
    ensures
        ir_list_view(r@) == arm64_lift_one(
            insns@,
            idx as int,
            pool_resolver@,
            stub_resolver.addresses(),
            stub_resolver.pool_offsets(),
        ),
{
    let insn = &insns[idx];
    let m = chars_of(insn.mnemonic.as_str());
    let m = m.as_slice();
    if chars_is(m, "ldr") {
        lift_ldr(insn, pool_resolver)
    } else if chars_is(m, "str") {
        lift_str(insn)
    } else if chars_is(m, "mov") || chars_is(m, "movz") || chars_is(m, "movk") || chars_is(m, "movn") {
        lift_mov(insn)
    } else if chars_is(m, "add") || chars_is(m, "adds") {
        lift_binop(insn, BinOpKind::Add)
    } else if chars_is(m, "sub") || chars_is(m, "subs") {
        lift_binop(insn, BinOpKind::Sub)
    } else if chars_is(m, "mul") || chars_is(m, "madd") {
        lift_binop(insn, BinOpKind::Mul)
    } else if chars_is(m, "sdiv") || chars_is(m, "udiv") {
        lift_binop(insn, BinOpKind::Div)
    } else if chars_is(m, "and") || chars_is(m, "ands") {
        lift_binop(insn, BinOpKind::And)
    } else if chars_is(m, "orr") {
        lift_binop(insn, BinOpKind::Or)
    } else if chars_is(m, "eor") {
        lift_binop(insn, BinOpKind::Xor)
    } else if chars_is(m, "lsl") {
        lift_binop(insn, BinOpKind::Shl)
    } else if chars_is(m, "lsr") {
        lift_binop(insn, BinOpKind::Shr)
    } else if chars_is(m, "asr") {
        lift_binop(insn, BinOpKind::Asr)
    } else if chars_is(m, "cmp") || chars_is(m, "cmn") {
        lift_compare(insn)
    } else if chars_is(m, "b") {
        lift_unconditional_branch(insn)
    } else if chars_is(m, "b.eq") || chars_is(m, "b.ne") || chars_is(m, "b.lt") || chars_is(m, "b.gt")
        || chars_is(m, "b.le") || chars_is(m, "b.ge") || chars_is(m, "b.hi") || chars_is(m, "b.lo")
        || chars_is(m, "b.hs") || chars_is(m, "b.ls") {
        branch_ir(insn, condition_of(m))
    } else if chars_is(m, "cbz") || chars_is(m, "cbnz") {
        lift_test_branch(insn, chars_is(m, "cbz"))
    } else if chars_is(m, "tbz") || chars_is(m, "tbnz") {
        lift_test_branch(insn, chars_is(m, "tbz"))
    } else if chars_is(m, "bl") {
        lift_bl(insn, stub_resolver)
    } else if chars_is(m, "blr") {
        lift_blr(insns, idx, stub_resolver)
    } else if chars_is(m, "ret") {
        let r = vec![IR::Return(Some(Operand::Reg(Reg(0))))];
        assert(ir_list_view(r@) =~= seq![IRView::Return(Some(OperandView::Reg(Reg(0))))]);
        r
    } else if chars_is(m, "stp") || chars_is(m, "ldp") || chars_is(m, "nop") {
        let r: Vec<IR> = Vec::new();
        assert(ir_list_view(r@) =~= Seq::empty());
        r
    } else {
        let r = vec![unknown(insn)];
        assert(ir_list_view(r@) =~= seq![unknown_ir(*insn)]);
        r
    }
}

/// Lift ARM64 instructions into IR: the IR of each instruction, in order.
pub fn lift_arm64(
    instructions: &[Instruction],
    pool_resolver: &PoolResolver,
    stub_resolver: &StubResolver,
) -> (r: Result<Vec<IR>, LiftError>)
    requires
        forall|i: int| 0 <= i < instructions@.len() ==> fallthrough_fits(#[trigger] instructions@[i]),
    ensures
        r matches Ok(v) && ir_list_view(v@) == arm64_lift_prefix(
            instructions@,
            instructions@.len(),
            pool_resolver@,
            stub_resolver.addresses(),
            stub_resolver.pool_offsets(),
        ),
{
    let mut ir_list: Vec<IR> = Vec::new();
    let mut i: usize = 0;
    while i < instructions.len()
        invariant
            i <= instructions@.len(),
            forall|k: int| 0 <= k < instructions@.len() ==> fallthrough_fits(#[trigger] instructions@[k]),
            ir_list_view(ir_list@) == arm64_lift_prefix(
                instructions@,
                i as nat,
                pool_resolver@,
                stub_resolver.addresses(),
                stub_resolver.pool_offsets(),
            ),
        decreases instructions.len() - i,
    {
        let mut ir = lift_single_arm64(instructions, i, pool_resolver, stub_resolver);
        let ghost before = ir_list@;
        let ghost part = ir@;
        ir_list.append(&mut ir);
        assert(ir_list@ == before + part);
        assert(ir_list_view(ir_list@) =~= ir_list_view(before) + ir_list_view(part));
        i = i + 1;
    }
    Ok(ir_list)
}

/// The arithmetic of an ARM64 instruction is the operation its mnemonic
/// names: `add`/`adds` add, `sub`/`subs` subtract, `mul`/`madd` multiply,
/// `sdiv`/`udiv` divide, `and`/`ands`, `orr` and `eor` are the bitwise
/// operations, and `lsl`, `lsr` and `asr` the shifts. The IR of each
/// instruction follows that of the ones before it.
pub proof fn law_arm64_arithmetic(
    insns: Seq<Instruction>,
    k: int,
    pool: Map<u64, Seq<char>>,
    addrs: Map<u64, super::ir::StubCallKind>,
    offs: Map<u64, super::ir::StubCallKind>,
)
    requires
        0 <= k < insns.len(),
    ensures
        insns[k].mnemonic@ == "add"@ ==> lifted_binop(arm64_lift_one(insns, k, pool, addrs, offs)) == Some(BinOpKind::Add),
        insns[k].mnemonic@ == "adds"@ ==> lifted_binop(arm64_lift_one(insns, k, pool, addrs, offs)) == Some(BinOpKind::Add),
        insns[k].mnemonic@ == "sub"@ ==> lifted_binop(arm64_lift_one(insns, k, pool, addrs, offs)) == Some(BinOpKind::Sub),
        insns[k].mnemonic@ == "subs"@ ==> lifted_binop(arm64_lift_one(insns, k, pool, addrs, offs)) == Some(BinOpKind::Sub),
        insns[k].mnemonic@ == "mul"@ ==> lifted_binop(arm64_lift_one(insns, k, pool, addrs, offs)) == Some(BinOpKind::Mul),
        insns[k].mnemonic@ == "madd"@ ==> lifted_binop(arm64_lift_one(insns, k, pool, addrs, offs)) == Some(BinOpKind::Mul),
        insns[k].mnemonic@ == "sdiv"@ ==> lifted_binop(arm64_lift_one(insns, k, pool, addrs, offs)) == Some(BinOpKind::Div),
        insns[k].mnemonic@ == "udiv"@ ==> lifted_binop(arm64_lift_one(insns, k, pool, addrs, offs)) == Some(BinOpKind::Div),
        insns[k].mnemonic@ == "and"@ ==> lifted_binop(arm64_lift_one(insns, k, pool, addrs, offs)) == Some(BinOpKind::And),
        insns[k].mnemonic@ == "ands"@ ==> lifted_binop(arm64_lift_one(insns, k, pool, addrs, offs)) == Some(BinOpKind::And),
        insns[k].mnemonic@ == "orr"@ ==> lifted_binop(arm64_lift_one(insns, k, pool, addrs, offs)) == Some(BinOpKind::Or),
        insns[k].mnemonic@ == "eor"@ ==> lifted_binop(arm64_lift_one(insns, k, pool, addrs, offs)) == Some(BinOpKind::Xor),
        insns[k].mnemonic@ == "lsl"@ ==> lifted_binop(arm64_lift_one(insns, k, pool, addrs, offs)) == Some(BinOpKind::Shl),
        insns[k].mnemonic@ == "lsr"@ ==> lifted_binop(arm64_lift_one(insns, k, pool, addrs, offs)) == Some(BinOpKind::Shr),
        insns[k].mnemonic@ == "asr"@ ==> lifted_binop(arm64_lift_one(insns, k, pool, addrs, offs)) == Some(BinOpKind::Asr),
        arm64_lift_prefix(insns, (k + 1) as nat, pool, addrs, offs)
            == arm64_lift_prefix(insns, k as nat, pool, addrs, offs) + arm64_lift_one(insns, k, pool, addrs, offs),
{
    reveal_strlit("add");
    reveal_strlit("adds");
    reveal_strlit("and");
    reveal_strlit("ands");
    reveal_strlit("asr");
    reveal_strlit("eor");
    reveal_strlit("ldr");
    reveal_strlit("lsl");
    reveal_strlit("lsr");
    reveal_strlit("madd");
    reveal_strlit("mov");
    reveal_strlit("movk");
    reveal_strlit("movn");
    reveal_strlit("movz");
    reveal_strlit("mul");
    reveal_strlit("orr");
    reveal_strlit("sdiv");
    reveal_strlit("str");
    reveal_strlit("sub");
    reveal_strlit("subs");
    reveal_strlit("udiv");
    let m = insns[k].mnemonic@;
        if m == "add"@ {
            assert(char_at("add"@, 0) != char_at("ldr"@, 0));
            assert(char_at("add"@, 0) != char_at("str"@, 0));
            assert(char_at("add"@, 0) != char_at("mov"@, 0));
            assert("add"@.len() != "movz"@.len());
            assert("add"@.len() != "movk"@.len());
            assert("add"@.len() != "movn"@.len());
        }
        if m == "adds"@ {
            assert("adds"@.len() != "ldr"@.len());
            assert("adds"@.len() != "str"@.len());
            assert("adds"@.len() != "mov"@.len());
            assert(char_at("adds"@, 0) != char_at("movz"@, 0));
            assert(char_at("adds"@, 0) != char_at("movk"@, 0));
            assert(char_at("adds"@, 0) != char_at("movn"@, 0));
        }
        if m == "sub"@ {
            assert(char_at("sub"@, 0) != char_at("ldr"@, 0));
            assert(char_at("sub"@, 1) != char_at("str"@, 1));
            assert(char_at("sub"@, 0) != char_at("mov"@, 0));
            assert("sub"@.len() != "movz"@.len());
            assert("sub"@.len() != "movk"@.len());
            assert("sub"@.len() != "movn"@.len());
            assert(char_at("sub"@, 0) != char_at("add"@, 0));
            assert("sub"@.len() != "adds"@.len());
        }
        if m == "subs"@ {
            assert("subs"@.len() != "ldr"@.len());
            assert("subs"@.len() != "str"@.len());
            assert("subs"@.len() != "mov"@.len());
            assert(char_at("subs"@, 0) != char_at("movz"@, 0));
            assert(char_at("subs"@, 0) != char_at("movk"@, 0));
            assert(char_at("subs"@, 0) != char_at("movn"@, 0));
            assert("subs"@.len() != "add"@.len());
            assert(char_at("subs"@, 0) != char_at("adds"@, 0));
        }
        if m == "mul"@ {
            assert(char_at("mul"@, 0) != char_at("ldr"@, 0));
            assert(char_at("mul"@, 0) != char_at("str"@, 0));
            assert(char_at("mul"@, 1) != char_at("mov"@, 1));
            assert("mul"@.len() != "movz"@.len());
            assert("mul"@.len() != "movk"@.len());
            assert("mul"@.len() != "movn"@.len());
            assert(char_at("mul"@, 0) != char_at("add"@, 0));
            assert("mul"@.len() != "adds"@.len());
            assert(char_at("mul"@, 0) != char_at("sub"@, 0));
            assert("mul"@.len() != "subs"@.len());
        }
        if m == "madd"@ {
            assert("madd"@.len() != "ldr"@.len());
            assert("madd"@.len() != "str"@.len());
            assert("madd"@.len() != "mov"@.len());
            assert(char_at("madd"@, 1) != char_at("movz"@, 1));
            assert(char_at("madd"@, 1) != char_at("movk"@, 1));
            assert(char_at("madd"@, 1) != char_at("movn"@, 1));
            assert("madd"@.len() != "add"@.len());
            assert(char_at("madd"@, 0) != char_at("adds"@, 0));
            assert("madd"@.len() != "sub"@.len());
            assert(char_at("madd"@, 0) != char_at("subs"@, 0));
        }
        if m == "sdiv"@ {
            assert("sdiv"@.len() != "ldr"@.len());
            assert("sdiv"@.len() != "str"@.len());
            assert("sdiv"@.len() != "mov"@.len());
            assert(char_at("sdiv"@, 0) != char_at("movz"@, 0));
            assert(char_at("sdiv"@, 0) != char_at("movk"@, 0));
            assert(char_at("sdiv"@, 0) != char_at("movn"@, 0));
            assert("sdiv"@.len() != "add"@.len());
            assert(char_at("sdiv"@, 0) != char_at("adds"@, 0));
            assert("sdiv"@.len() != "sub"@.len());
            assert(char_at("sdiv"@, 1) != char_at("subs"@, 1));
            assert("sdiv"@.len() != "mul"@.len());
            assert(char_at("sdiv"@, 0) != char_at("madd"@, 0));
        }
        if m == "udiv"@ {
            assert("udiv"@.len() != "ldr"@.len());
            assert("udiv"@.len() != "str"@.len());
            assert("udiv"@.len() != "mov"@.len());
            assert(char_at("udiv"@, 0) != char_at("movz"@, 0));
            assert(char_at("udiv"@, 0) != char_at("movk"@, 0));
            assert(char_at("udiv"@, 0) != char_at("movn"@, 0));
            assert("udiv"@.len() != "add"@.len());
            assert(char_at("udiv"@, 0) != char_at("adds"@, 0));
            assert("udiv"@.len() != "sub"@.len());
            assert(char_at("udiv"@, 0) != char_at("subs"@, 0));
            assert("udiv"@.len() != "mul"@.len());
            assert(char_at("udiv"@, 0) != char_at("madd"@, 0));
        }
        if m == "and"@ {
            assert(char_at("and"@, 0) != char_at("ldr"@, 0));
            assert(char_at("and"@, 0) != char_at("str"@, 0));
            assert(char_at("and"@, 0) != char_at("mov"@, 0));
            assert("and"@.len() != "movz"@.len());
            assert("and"@.len() != "movk"@.len());
            assert("and"@.len() != "movn"@.len());
            assert(char_at("and"@, 1) != char_at("add"@, 1));
            assert("and"@.len() != "adds"@.len());
            assert(char_at("and"@, 0) != char_at("sub"@, 0));
            assert("and"@.len() != "subs"@.len());
            assert(char_at("and"@, 0) != char_at("mul"@, 0));
            assert("and"@.len() != "madd"@.len());
            assert("and"@.len() != "sdiv"@.len());
            assert("and"@.len() != "udiv"@.len());
        }
        if m == "ands"@ {
            assert("ands"@.len() != "ldr"@.len());
            assert("ands"@.len() != "str"@.len());
            assert("ands"@.len() != "mov"@.len());
            assert(char_at("ands"@, 0) != char_at("movz"@, 0));
            assert(char_at("ands"@, 0) != char_at("movk"@, 0));
            assert(char_at("ands"@, 0) != char_at("movn"@, 0));
            assert("ands"@.len() != "add"@.len());
            assert(char_at("ands"@, 1) != char_at("adds"@, 1));
            assert("ands"@.len() != "sub"@.len());
            assert(char_at("ands"@, 0) != char_at("subs"@, 0));
            assert("ands"@.len() != "mul"@.len());
            assert(char_at("ands"@, 0) != char_at("madd"@, 0));
            assert(char_at("ands"@, 0) != char_at("sdiv"@, 0));
            assert(char_at("ands"@, 0) != char_at("udiv"@, 0));
        }
        if m == "orr"@ {
            assert(char_at("orr"@, 0) != char_at("ldr"@, 0));
            assert(char_at("orr"@, 0) != char_at("str"@, 0));
            assert(char_at("orr"@, 0) != char_at("mov"@, 0));
            assert("orr"@.len() != "movz"@.len());
            assert("orr"@.len() != "movk"@.len());
            assert("orr"@.len() != "movn"@.len());
            assert(char_at("orr"@, 0) != char_at("add"@, 0));
            assert("orr"@.len() != "adds"@.len());
            assert(char_at("orr"@, 0) != char_at("sub"@, 0));
            assert("orr"@.len() != "subs"@.len());
            assert(char_at("orr"@, 0) != char_at("mul"@, 0));
            assert("orr"@.len() != "madd"@.len());
            assert("orr"@.len() != "sdiv"@.len());
            assert("orr"@.len() != "udiv"@.len());
            assert(char_at("orr"@, 0) != char_at("and"@, 0));
            assert("orr"@.len() != "ands"@.len());
        }
        if m == "eor"@ {
            assert(char_at("eor"@, 0) != char_at("ldr"@, 0));
            assert(char_at("eor"@, 0) != char_at("str"@, 0));
            assert(char_at("eor"@, 0) != char_at("mov"@, 0));
            assert("eor"@.len() != "movz"@.len());
            assert("eor"@.len() != "movk"@.len());
            assert("eor"@.len() != "movn"@.len());
            assert(char_at("eor"@, 0) != char_at("add"@, 0));
            assert("eor"@.len() != "adds"@.len());
            assert(char_at("eor"@, 0) != char_at("sub"@, 0));
            assert("eor"@.len() != "subs"@.len());
            assert(char_at("eor"@, 0) != char_at("mul"@, 0));
            assert("eor"@.len() != "madd"@.len());
            assert("eor"@.len() != "sdiv"@.len());
            assert("eor"@.len() != "udiv"@.len());
            assert(char_at("eor"@, 0) != char_at("and"@, 0));
            assert("eor"@.len() != "ands"@.len());
            assert(char_at("eor"@, 0) != char_at("orr"@, 0));
        }
        if m == "lsl"@ {
            assert(char_at("lsl"@, 1) != char_at("ldr"@, 1));
            assert(char_at("lsl"@, 0) != char_at("str"@, 0));
            assert(char_at("lsl"@, 0) != char_at("mov"@, 0));
            assert("lsl"@.len() != "movz"@.len());
            assert("lsl"@.len() != "movk"@.len());
            assert("lsl"@.len() != "movn"@.len());
            assert(char_at("lsl"@, 0) != char_at("add"@, 0));
            assert("lsl"@.len() != "adds"@.len());
            assert(char_at("lsl"@, 0) != char_at("sub"@, 0));
            assert("lsl"@.len() != "subs"@.len());
            assert(char_at("lsl"@, 0) != char_at("mul"@, 0));
            assert("lsl"@.len() != "madd"@.len());
            assert("lsl"@.len() != "sdiv"@.len());
            assert("lsl"@.len() != "udiv"@.len());
            assert(char_at("lsl"@, 0) != char_at("and"@, 0));
            assert("lsl"@.len() != "ands"@.len());
            assert(char_at("lsl"@, 0) != char_at("orr"@, 0));
            assert(char_at("lsl"@, 0) != char_at("eor"@, 0));
        }
        if m == "lsr"@ {
            assert(char_at("lsr"@, 1) != char_at("ldr"@, 1));
            assert(char_at("lsr"@, 0) != char_at("str"@, 0));
            assert(char_at("lsr"@, 0) != char_at("mov"@, 0));
            assert("lsr"@.len() != "movz"@.len());
            assert("lsr"@.len() != "movk"@.len());
            assert("lsr"@.len() != "movn"@.len());
            assert(char_at("lsr"@, 0) != char_at("add"@, 0));
            assert("lsr"@.len() != "adds"@.len());
            assert(char_at("lsr"@, 0) != char_at("sub"@, 0));
            assert("lsr"@.len() != "subs"@.len());
            assert(char_at("lsr"@, 0) != char_at("mul"@, 0));
            assert("lsr"@.len() != "madd"@.len());
            assert("lsr"@.len() != "sdiv"@.len());
            assert("lsr"@.len() != "udiv"@.len());
            assert(char_at("lsr"@, 0) != char_at("and"@, 0));
            assert("lsr"@.len() != "ands"@.len());
            assert(char_at("lsr"@, 0) != char_at("orr"@, 0));
            assert(char_at("lsr"@, 0) != char_at("eor"@, 0));
            assert(char_at("lsr"@, 2) != char_at("lsl"@, 2));
        }
        if m == "asr"@ {
            assert(char_at("asr"@, 0) != char_at("ldr"@, 0));
            assert(char_at("asr"@, 0) != char_at("str"@, 0));
            assert(char_at("asr"@, 0) != char_at("mov"@, 0));
            assert("asr"@.len() != "movz"@.len());
            assert("asr"@.len() != "movk"@.len());
            assert("asr"@.len() != "movn"@.len());
            assert(char_at("asr"@, 1) != char_at("add"@, 1));
            assert("asr"@.len() != "adds"@.len());
            assert(char_at("asr"@, 0) != char_at("sub"@, 0));
            assert("asr"@.len() != "subs"@.len());
            assert(char_at("asr"@, 0) != char_at("mul"@, 0));
            assert("asr"@.len() != "madd"@.len());
            assert("asr"@.len() != "sdiv"@.len());
            assert("asr"@.len() != "udiv"@.len());
            assert(char_at("asr"@, 1) != char_at("and"@, 1));
            assert("asr"@.len() != "ands"@.len());
            assert(char_at("asr"@, 0) != char_at("orr"@, 0));
            assert(char_at("asr"@, 0) != char_at("eor"@, 0));
            assert(char_at("asr"@, 0) != char_at("lsl"@, 0));
            assert(char_at("asr"@, 0) != char_at("lsr"@, 0));
        }
}

/// A conditional ARM64 branch tests the condition its mnemonic names:
/// `b.eq` equality, `b.ne` inequality, `b.lt`, `b.gt`, `b.le` and `b.ge` the
/// signed orderings.
pub proof fn law_arm64_conditions(
    insns: Seq<Instruction>,
    k: int,
    pool: Map<u64, Seq<char>>,
    addrs: Map<u64, super::ir::StubCallKind>,
    offs: Map<u64, super::ir::StubCallKind>,
)
    requires
        0 <= k < insns.len(),
    ensures
        insns[k].mnemonic@ == "b.eq"@ ==> lifted_condition(arm64_lift_one(insns, k, pool, addrs, offs)) == Some(ConditionView::Equal),
        insns[k].mnemonic@ == "b.ne"@ ==> lifted_condition(arm64_lift_one(insns, k, pool, addrs, offs)) == Some(ConditionView::NotEqual),
        insns[k].mnemonic@ == "b.lt"@ ==> lifted_condition(arm64_lift_one(insns, k, pool, addrs, offs)) == Some(ConditionView::LessThan),
        insns[k].mnemonic@ == "b.gt"@ ==> lifted_condition(arm64_lift_one(insns, k, pool, addrs, offs)) == Some(ConditionView::GreaterThan),
        insns[k].mnemonic@ == "b.le"@ ==> lifted_condition(arm64_lift_one(insns, k, pool, addrs, offs)) == Some(ConditionView::LessOrEqual),
        insns[k].mnemonic@ == "b.ge"@ ==> lifted_condition(arm64_lift_one(insns, k, pool, addrs, offs)) == Some(ConditionView::GreaterOrEqual),
{
    reveal_strlit("add");
    reveal_strlit("adds");
    reveal_strlit("and");
    reveal_strlit("ands");
    reveal_strlit("asr");
    reveal_strlit("b");
    reveal_strlit("b.eq");
    reveal_strlit("b.ge");
    reveal_strlit("b.gt");
    reveal_strlit("b.le");
    reveal_strlit("b.lt");
    reveal_strlit("b.ne");
    reveal_strlit("cmn");
    reveal_strlit("cmp");
    reveal_strlit("eor");
    reveal_strlit("ldr");
    reveal_strlit("lsl");
    reveal_strlit("lsr");
    reveal_strlit("madd");
    reveal_strlit("mov");
    reveal_strlit("movk");
    reveal_strlit("movn");
    reveal_strlit("movz");
    reveal_strlit("mul");
    reveal_strlit("orr");
    reveal_strlit("sdiv");
    reveal_strlit("str");
    reveal_strlit("sub");
    reveal_strlit("subs");
    reveal_strlit("udiv");
    reveal_strlit("b.hi");
    reveal_strlit("b.lo");
    reveal_strlit("b.hs");
    reveal_strlit("b.ls");
    let m = insns[k].mnemonic@;
        if m == "b.eq"@ {
            assert("b.eq"@.len() != "ldr"@.len());
            assert("b.eq"@.len() != "str"@.len());
            assert("b.eq"@.len() != "mov"@.len());
            assert(char_at("b.eq"@, 0) != char_at("movz"@, 0));
            assert(char_at("b.eq"@, 0) != char_at("movk"@, 0));
            assert(char_at("b.eq"@, 0) != char_at("movn"@, 0));
            assert("b.eq"@.len() != "add"@.len());
            assert(char_at("b.eq"@, 0) != char_at("adds"@, 0));
            assert("b.eq"@.len() != "sub"@.len());
            assert(char_at("b.eq"@, 0) != char_at("subs"@, 0));
            assert("b.eq"@.len() != "mul"@.len());
            assert(char_at("b.eq"@, 0) != char_at("madd"@, 0));
            assert(char_at("b.eq"@, 0) != char_at("sdiv"@, 0));
            assert(char_at("b.eq"@, 0) != char_at("udiv"@, 0));
            assert("b.eq"@.len() != "and"@.len());
            assert(char_at("b.eq"@, 0) != char_at("ands"@, 0));
            assert("b.eq"@.len() != "orr"@.len());
            assert("b.eq"@.len() != "eor"@.len());
            assert("b.eq"@.len() != "lsl"@.len());
            assert("b.eq"@.len() != "lsr"@.len());
            assert("b.eq"@.len() != "asr"@.len());
            assert("b.eq"@.len() != "cmp"@.len());
            assert("b.eq"@.len() != "cmn"@.len());
            assert("b.eq"@.len() != "b"@.len());
        }
        if m == "b.ne"@ {
            assert("b.ne"@.len() != "ldr"@.len());
            assert("b.ne"@.len() != "str"@.len());
            assert("b.ne"@.len() != "mov"@.len());
            assert(char_at("b.ne"@, 0) != char_at("movz"@, 0));
            assert(char_at("b.ne"@, 0) != char_at("movk"@, 0));
            assert(char_at("b.ne"@, 0) != char_at("movn"@, 0));
            assert("b.ne"@.len() != "add"@.len());
            assert(char_at("b.ne"@, 0) != char_at("adds"@, 0));
            assert("b.ne"@.len() != "sub"@.len());
            assert(char_at("b.ne"@, 0) != char_at("subs"@, 0));
            assert("b.ne"@.len() != "mul"@.len());
            assert(char_at("b.ne"@, 0) != char_at("madd"@, 0));
            assert(char_at("b.ne"@, 0) != char_at("sdiv"@, 0));
            assert(char_at("b.ne"@, 0) != char_at("udiv"@, 0));
            assert("b.ne"@.len() != "and"@.len());
            assert(char_at("b.ne"@, 0) != char_at("ands"@, 0));
            assert("b.ne"@.len() != "orr"@.len());
            assert("b.ne"@.len() != "eor"@.len());
            assert("b.ne"@.len() != "lsl"@.len());
            assert("b.ne"@.len() != "lsr"@.len());
            assert("b.ne"@.len() != "asr"@.len());
            assert("b.ne"@.len() != "cmp"@.len());
            assert("b.ne"@.len() != "cmn"@.len());
            assert("b.ne"@.len() != "b"@.len());
            assert(char_at("b.ne"@, 2) != char_at("b.eq"@, 2));
        }
        if m == "b.lt"@ {
            assert("b.lt"@.len() != "ldr"@.len());
            assert("b.lt"@.len() != "str"@.len());
            assert("b.lt"@.len() != "mov"@.len());
            assert(char_at("b.lt"@, 0) != char_at("movz"@, 0));
            assert(char_at("b.lt"@, 0) != char_at("movk"@, 0));
            assert(char_at("b.lt"@, 0) != char_at("movn"@, 0));
            assert("b.lt"@.len() != "add"@.len());
            assert(char_at("b.lt"@, 0) != char_at("adds"@, 0));
            assert("b.lt"@.len() != "sub"@.len());
            assert(char_at("b.lt"@, 0) != char_at("subs"@, 0));
            assert("b.lt"@.len() != "mul"@.len());
            assert(char_at("b.lt"@, 0) != char_at("madd"@, 0));
            assert(char_at("b.lt"@, 0) != char_at("sdiv"@, 0));
            assert(char_at("b.lt"@, 0) != char_at("udiv"@, 0));
            assert("b.lt"@.len() != "and"@.len());
            assert(char_at("b.lt"@, 0) != char_at("ands"@, 0));
            assert("b.lt"@.len() != "orr"@.len());
            assert("b.lt"@.len() != "eor"@.len());
            assert("b.lt"@.len() != "lsl"@.len());
            assert("b.lt"@.len() != "lsr"@.len());
            assert("b.lt"@.len() != "asr"@.len());
            assert("b.lt"@.len() != "cmp"@.len());
            assert("b.lt"@.len() != "cmn"@.len());
            assert("b.lt"@.len() != "b"@.len());
            assert(char_at("b.lt"@, 2) != char_at("b.eq"@, 2));
            assert(char_at("b.lt"@, 2) != char_at("b.ne"@, 2));
        }
        if m == "b.gt"@ {
            assert("b.gt"@.len() != "ldr"@.len());
            assert("b.gt"@.len() != "str"@.len());
            assert("b.gt"@.len() != "mov"@.len());
            assert(char_at("b.gt"@, 0) != char_at("movz"@, 0));
            assert(char_at("b.gt"@, 0) != char_at("movk"@, 0));
            assert(char_at("b.gt"@, 0) != char_at("movn"@, 0));
            assert("b.gt"@.len() != "add"@.len());
            assert(char_at("b.gt"@, 0) != char_at("adds"@, 0));
            assert("b.gt"@.len() != "sub"@.len());
            assert(char_at("b.gt"@, 0) != char_at("subs"@, 0));
            assert("b.gt"@.len() != "mul"@.len());
            assert(char_at("b.gt"@, 0) != char_at("madd"@, 0));
            assert(char_at("b.gt"@, 0) != char_at("sdiv"@, 0));
            assert(char_at("b.gt"@, 0) != char_at("udiv"@, 0));
            assert("b.gt"@.len() != "and"@.len());
            assert(char_at("b.gt"@, 0) != char_at("ands"@, 0));
            assert("b.gt"@.len() != "orr"@.len());
            assert("b.gt"@.len() != "eor"@.len());
            assert("b.gt"@.len() != "lsl"@.len());
            assert("b.gt"@.len() != "lsr"@.len());
            assert("b.gt"@.len() != "asr"@.len());
            assert("b.gt"@.len() != "cmp"@.len());
            assert("b.gt"@.len() != "cmn"@.len());
            assert("b.gt"@.len() != "b"@.len());
            assert(char_at("b.gt"@, 2) != char_at("b.eq"@, 2));
            assert(char_at("b.gt"@, 2) != char_at("b.ne"@, 2));
            assert(char_at("b.gt"@, 2) != char_at("b.lt"@, 2));
        }
        if m == "b.le"@ {
            assert("b.le"@.len() != "ldr"@.len());
            assert("b.le"@.len() != "str"@.len());
            assert("b.le"@.len() != "mov"@.len());
            assert(char_at("b.le"@, 0) != char_at("movz"@, 0));
            assert(char_at("b.le"@, 0) != char_at("movk"@, 0));
            assert(char_at("b.le"@, 0) != char_at("movn"@, 0));
            assert("b.le"@.len() != "add"@.len());
            assert(char_at("b.le"@, 0) != char_at("adds"@, 0));
            assert("b.le"@.len() != "sub"@.len());
            assert(char_at("b.le"@, 0) != char_at("subs"@, 0));
            assert("b.le"@.len() != "mul"@.len());
            assert(char_at("b.le"@, 0) != char_at("madd"@, 0));
            assert(char_at("b.le"@, 0) != char_at("sdiv"@, 0));
            assert(char_at("b.le"@, 0) != char_at("udiv"@, 0));
            assert("b.le"@.len() != "and"@.len());
            assert(char_at("b.le"@, 0) != char_at("ands"@, 0));
            assert("b.le"@.len() != "orr"@.len());
            assert("b.le"@.len() != "eor"@.len());
            assert("b.le"@.len() != "lsl"@.len());
            assert("b.le"@.len() != "lsr"@.len());
            assert("b.le"@.len() != "asr"@.len());
            assert("b.le"@.len() != "cmp"@.len());
            assert("b.le"@.len() != "cmn"@.len());
            assert("b.le"@.len() != "b"@.len());
            assert(char_at("b.le"@, 2) != char_at("b.eq"@, 2));
            assert(char_at("b.le"@, 2) != char_at("b.ne"@, 2));
            assert(char_at("b.le"@, 3) != char_at("b.lt"@, 3));
            assert(char_at("b.le"@, 2) != char_at("b.gt"@, 2));
        }
        if m == "b.ge"@ {
            assert("b.ge"@.len() != "ldr"@.len());
            assert("b.ge"@.len() != "str"@.len());
            assert("b.ge"@.len() != "mov"@.len());
            assert(char_at("b.ge"@, 0) != char_at("movz"@, 0));
            assert(char_at("b.ge"@, 0) != char_at("movk"@, 0));
            assert(char_at("b.ge"@, 0) != char_at("movn"@, 0));
            assert("b.ge"@.len() != "add"@.len());
            assert(char_at("b.ge"@, 0) != char_at("adds"@, 0));
            assert("b.ge"@.len() != "sub"@.len());
            assert(char_at("b.ge"@, 0) != char_at("subs"@, 0));
            assert("b.ge"@.len() != "mul"@.len());
            assert(char_at("b.ge"@, 0) != char_at("madd"@, 0));
            assert(char_at("b.ge"@, 0) != char_at("sdiv"@, 0));
            assert(char_at("b.ge"@, 0) != char_at("udiv"@, 0));
            assert("b.ge"@.len() != "and"@.len());
            assert(char_at("b.ge"@, 0) != char_at("ands"@, 0));
            assert("b.ge"@.len() != "orr"@.len());
            assert("b.ge"@.len() != "eor"@.len());
            assert("b.ge"@.len() != "lsl"@.len());
            assert("b.ge"@.len() != "lsr"@.len());
            assert("b.ge"@.len() != "asr"@.len());
            assert("b.ge"@.len() != "cmp"@.len());
            assert("b.ge"@.len() != "cmn"@.len());
            assert("b.ge"@.len() != "b"@.len());
            assert(char_at("b.ge"@, 2) != char_at("b.eq"@, 2));
            assert(char_at("b.ge"@, 2) != char_at("b.ne"@, 2));
            assert(char_at("b.ge"@, 2) != char_at("b.lt"@, 2));
            assert(char_at("b.ge"@, 3) != char_at("b.gt"@, 3));
            assert(char_at("b.ge"@, 2) != char_at("b.le"@, 2));
        }
}

} // verus!
