//! Lifting of ARM32 (Thumb2) instructions into IR.

use vstd::prelude::*;
use crate::disasm::common::Instruction;
use crate::snapshot::SnapshotAddr;
use crate::text::{chars_is, chars_of, contains_seq, str_contains};
use super::ir::{
    BinOpKind, BlockId, CallKind, CallKindView, Condition, ConditionView, IRView, Operand,
    OperandView, Reg, StubCallKind, IR, char_at, ir_list_view, lifted_binop, lifted_condition,
};
use super::operands::{
    fallthrough_fits, get_imm_or_reg, get_mem_disp, get_reg_id, imm_or_reg, mem_operand,
    reg_operand, unknown, unknown_ir,
};
use super::arm64::{branch_to, four_args, four_args_vec, r0_args, stub_call};
use super::resolvers::{map_lookup, PoolResolver, StubResolver};
use super::LiftError;

verus! {

/// R10 holds the Object Pool pointer in ARM32 Dart code.
pub const ARM32_PP_REG: u16 = 10;

/// `LDR`: a pool load through R10, otherwise a field load.
pub open spec fn arm32_ldr(insn: Instruction, pool: Map<u64, Seq<char>>) -> Seq<IRView> {
    let dst = reg_operand(insn, 0);
    match mem_operand(insn, 1) {
        Some((base, disp)) => if base.0 == ARM32_PP_REG {
            seq![IRView::LoadPool { dst, addr: SnapshotAddr(disp as u64), resolved: map_lookup(pool, disp as u64) }]
        } else {
            seq![IRView::LoadField { dst, base, offset: disp as u32, field_name: None }]
        },
        None => seq![unknown_ir(insn)],
    }
}

/// `STR`: a field store.
pub open spec fn arm32_str(insn: Instruction) -> Seq<IRView> {
    match mem_operand(insn, 1) {
        Some((base, disp)) => seq![
            IRView::StoreField {
                base,
                offset: disp as u32,
                value: OperandView::Reg(reg_operand(insn, 0)),
                field_name: None,
            },
        ],
        None => seq![unknown_ir(insn)],
    }
}

/// A three-operand instruction whose last operand is an immediate or a register.
pub open spec fn arm32_binop(insn: Instruction, op: BinOpKind) -> Seq<IRView> {
    seq![
        IRView::BinOp {
            dst: reg_operand(insn, 0),
            op,
            lhs: OperandView::Reg(reg_operand(insn, 1)),
            rhs: imm_or_reg(insn, 2),
        },
    ]
}

/// The condition an ARM32 conditional branch mnemonic tests.
pub open spec fn arm32_condition(m: Seq<char>) -> ConditionView {
    if m == "beq"@ {
        ConditionView::Equal
    } else if m == "bne"@ {
        ConditionView::NotEqual
    } else if m == "blt"@ {
        ConditionView::LessThan
    } else if m == "bgt"@ {
        ConditionView::GreaterThan
    } else if m == "ble"@ {
        ConditionView::LessOrEqual
    } else {
        ConditionView::GreaterOrEqual
    }
}

/// `BL`/`BLX`: a call of a known stub, or a direct call with four arguments.
pub open spec fn arm32_bl(insn: Instruction, addrs: Map<u64, StubCallKind>) -> Seq<IRView> {
    let target = match insn.branch_target {
        Some(t) => t,
        None => 0,
    };
    match map_lookup(addrs, target) {
        Some(k) => seq![stub_call(k)],
        None => seq![
            IRView::Call {
                dst: Some(Reg(0)),
                kind: CallKindView::Direct(SnapshotAddr(target)),
                args: four_args(),
            },
        ],
    }
}

/// The IR for one ARM32 instruction.
pub open spec fn arm32_lift_one(
    insn: Instruction,
    pool: Map<u64, Seq<char>>,
    addrs: Map<u64, StubCallKind>,
) -> Seq<IRView> {
    let m = insn.mnemonic@;
    if m == "ldr"@ || m == "ldr.w"@ {
        arm32_ldr(insn, pool)
    } else if m == "str"@ || m == "str.w"@ {
        arm32_str(insn)
    } else if m == "mov"@ || m == "movs"@ || m == "movw"@ || m == "movt"@ {
        seq![IRView::Assign(reg_operand(insn, 0), imm_or_reg(insn, 1))]
    } else if m == "add"@ || m == "adds"@ {
        arm32_binop(insn, BinOpKind::Add)
    } else if m == "sub"@ || m == "subs"@ {
        arm32_binop(insn, BinOpKind::Sub)
    } else if m == "mul"@ || m == "muls"@ {
        seq![
            IRView::BinOp {
                dst: reg_operand(insn, 0),
                op: BinOpKind::Mul,
                lhs: OperandView::Reg(reg_operand(insn, 1)),
                rhs: OperandView::Reg(reg_operand(insn, 2)),
            },
        ]
    } else if m == "cmp"@ || m == "cmn"@ {
        seq![IRView::Compare { lhs: OperandView::Reg(reg_operand(insn, 0)), rhs: imm_or_reg(insn, 1) }]
    } else if m == "b"@ || m == "b.w"@ {
        match insn.branch_target {
            Some(t) => seq![IRView::Jump(t as BlockId)],
            None => seq![unknown_ir(insn)],
        }
    } else if m == "beq"@ || m == "bne"@ || m == "blt"@ || m == "bgt"@ || m == "ble"@ || m == "bge"@ {
        branch_to(insn, arm32_condition(m))
    } else if m == "bl"@ || m == "blx"@ {
        arm32_bl(insn, addrs)
    } else if (m == "bx"@ && contains_seq(insn.op_str@, "lr"@)) || (m == "pop"@ && contains_seq(
        insn.op_str@,
        "pc"@,
    )) {
        seq![IRView::Return(Some(OperandView::Reg(Reg(0))))]
    } else if m == "push"@ || m == "pop"@ || m == "nop"@ {
        Seq::empty()
    } else {
        seq![unknown_ir(insn)]
    }
}

/// The IR for the first `n` instructions, in order.
pub open spec fn arm32_lift_prefix(
    insns: Seq<Instruction>,
    n: nat,
    pool: Map<u64, Seq<char>>,
    addrs: Map<u64, StubCallKind>,
) -> Seq<IRView>
    decreases n,
{
    if n == 0 {
        Seq::empty()
    } else {
        arm32_lift_prefix(insns, (n - 1) as nat, pool, addrs) + arm32_lift_one(insns[n - 1], pool, addrs)
    }
}

fn arm32_condition_of(m: &[char]) -> (c: Condition)
    ensures
        c@ == arm32_condition(m@),
{
    if chars_is(m, "beq") {
        Condition::Equal
    } else if chars_is(m, "bne") {
        Condition::NotEqual
    } else if chars_is(m, "blt") {
        Condition::LessThan
    } else if chars_is(m, "bgt") {
        Condition::GreaterThan
    } else if chars_is(m, "ble") {
        Condition::LessOrEqual
    } else {
        Condition::GreaterOrEqual
    }
}

fn one(ir: IR) -> (r: Vec<IR>)
    ensures
        ir_list_view(r@) == seq![ir@],
{
    let ghost v = ir@;
    let r = vec![ir];
    assert(ir_list_view(r@) =~= seq![v]);
    r
}

fn none() -> (r: Vec<IR>)
    ensures
        ir_list_view(r@) == Seq::<IRView>::empty(),
{
    let r: Vec<IR> = Vec::new();
    assert(ir_list_view(r@) =~= Seq::<IRView>::empty());
    r
}

fn lift_single_arm32(insn: &Instruction, pool_resolver: &PoolResolver, stub_resolver: &StubResolver) -> (r: Vec<IR>)
    requires
        fallthrough_fits(*insn),
    ensures
        ir_list_view(r@) == arm32_lift_one(*insn, pool_resolver@, stub_resolver.addresses()),
{
    let mc = chars_of(insn.mnemonic.as_str());
    let m = mc.as_slice();
    if chars_is(m, "ldr") || chars_is(m, "ldr.w") {
        let dst = get_reg_id(insn, 0);
        if let Some((base, disp)) = get_mem_disp(insn, 1) {
            if base.0 == ARM32_PP_REG {
                let resolved = pool_resolver.resolve_offset(disp as u64);
                return one(IR::LoadPool { dst, addr: SnapshotAddr(disp as u64), resolved });
            }
            return one(IR::LoadField { dst, base, offset: disp as u32, field_name: None });
        }
        one(unknown(insn))
    } else if chars_is(m, "str") || chars_is(m, "str.w") {
        let src = get_reg_id(insn, 0);
        if let Some((base, disp)) = get_mem_disp(insn, 1) {
            return one(IR::StoreField { base, offset: disp as u32, value: Operand::Reg(src), field_name: None });
        }
        one(unknown(insn))
    } else if chars_is(m, "mov") || chars_is(m, "movs") || chars_is(m, "movw") || chars_is(m, "movt") {
        let dst = get_reg_id(insn, 0);
        one(IR::Assign(dst, get_imm_or_reg(insn, 1)))
    } else if chars_is(m, "add") || chars_is(m, "adds") {
        let dst = get_reg_id(insn, 0);
        let lhs = Operand::Reg(get_reg_id(insn, 1));
        one(IR::BinOp { dst, op: BinOpKind::Add, lhs, rhs: get_imm_or_reg(insn, 2) })
    } else if chars_is(m, "sub") || chars_is(m, "subs") {
        let dst = get_reg_id(insn, 0);
        let lhs = Operand::Reg(get_reg_id(insn, 1));
        one(IR::BinOp { dst, op: BinOpKind::Sub, lhs, rhs: get_imm_or_reg(insn, 2) })
    } else if chars_is(m, "mul") || chars_is(m, "muls") {
        let dst = get_reg_id(insn, 0);
        let lhs = Operand::Reg(get_reg_id(insn, 1));
        let rhs = Operand::Reg(get_reg_id(insn, 2));
        one(IR::BinOp { dst, op: BinOpKind::Mul, lhs, rhs })
    } else if chars_is(m, "cmp") || chars_is(m, "cmn") {
        let lhs = Operand::Reg(get_reg_id(insn, 0));
        one(IR::Compare { lhs, rhs: get_imm_or_reg(insn, 1) })
    } else if chars_is(m, "b") || chars_is(m, "b.w") {
        if let Some(target) = insn.branch_target {
            one(IR::Jump(target as BlockId))
        } else {
            one(unknown(insn))
        }
    } else if chars_is(m, "beq") || chars_is(m, "bne") || chars_is(m, "blt") || chars_is(m, "bgt")
        || chars_is(m, "ble") || chars_is(m, "bge") {
        let condition = arm32_condition_of(m);
        let target = super::operands::target_of(insn.branch_target);
        let ft = super::operands::fallthrough(insn);
        let r = one(IR::Branch { condition, true_target: target, false_target: ft });
        assert(ir_list_view(r@) =~= branch_to(*insn, arm32_condition(m@)));
        r
    } else if chars_is(m, "bl") || chars_is(m, "blx") {
        let target = match insn.branch_target {
            Some(t) => t,
            None => 0,
        };
        if let Some(stub_kind) = stub_resolver.resolve_address(target) {
            let c = IR::Call { dst: Some(Reg(0)), kind: CallKind::Stub(stub_kind), args: r0_args() };
            assert(c@ =~= stub_call(stub_kind));
            return one(c);
        }
        let c = IR::Call { dst: Some(Reg(0)), kind: CallKind::Direct(SnapshotAddr(target)), args: four_args_vec() };
        assert(c@ =~= IRView::Call {
            dst: Some(Reg(0)),
            kind: CallKindView::Direct(SnapshotAddr(target)),
            args: four_args(),
        });
        one(c)
    } else if (chars_is(m, "bx") && str_contains(insn.op_str.as_str(), "lr")) || (chars_is(m, "pop")
        && str_contains(insn.op_str.as_str(), "pc")) {
        one(IR::Return(Some(Operand::Reg(Reg(0)))))
    } else if chars_is(m, "push") || chars_is(m, "pop") || chars_is(m, "nop") {
        none()
    } else {
        one(unknown(insn))
    }
}

/// Lift ARM32 (Thumb2) instructions into IR: the IR of each instruction, in order.
pub fn lift_arm32(
    instructions: &[Instruction],
    pool_resolver: &PoolResolver,
    stub_resolver: &StubResolver,
) -> (r: Result<Vec<IR>, LiftError>)
    requires
        forall|i: int| 0 <= i < instructions@.len() ==> fallthrough_fits(#[trigger] instructions@[i]),
    ensures
        r matches Ok(v) && ir_list_view(v@) == arm32_lift_prefix(
            instructions@,
            instructions@.len(),
            pool_resolver@,
            stub_resolver.addresses(),
        ),
{
    let mut ir_list: Vec<IR> = Vec::new();
    let mut i: usize = 0;
    while i < instructions.len()
        invariant
            i <= instructions@.len(),
            forall|k: int| 0 <= k < instructions@.len() ==> fallthrough_fits(#[trigger] instructions@[k]),
            ir_list_view(ir_list@) == arm32_lift_prefix(
                instructions@,
                i as nat,
                pool_resolver@,
                stub_resolver.addresses(),
            ),
        decreases instructions.len() - i,
    {
        let mut ir = lift_single_arm32(&instructions[i], pool_resolver, stub_resolver);
        let ghost before = ir_list@;
        let ghost part = ir@;
        ir_list.append(&mut ir);
        assert(ir_list@ == before + part);
        assert(ir_list_view(ir_list@) =~= ir_list_view(before) + ir_list_view(part));
        i = i + 1;
    }
    Ok(ir_list)
}

/// The arithmetic of an ARM32 instruction is the operation its mnemonic
/// names: `add`/`adds` add, `sub`/`subs` subtract, `mul`/`muls` multiply.
/// The IR of each instruction follows that of the ones before it.
pub proof fn law_arm32_arithmetic(
    insns: Seq<Instruction>,
    k: int,
    pool: Map<u64, Seq<char>>,
    addrs: Map<u64, StubCallKind>,
)
    requires
        0 <= k < insns.len(),
    ensures
        insns[k].mnemonic@ == "add"@ ==> lifted_binop(arm32_lift_one(insns[k], pool, addrs)) == Some(BinOpKind::Add),
        insns[k].mnemonic@ == "adds"@ ==> lifted_binop(arm32_lift_one(insns[k], pool, addrs)) == Some(BinOpKind::Add),
        insns[k].mnemonic@ == "sub"@ ==> lifted_binop(arm32_lift_one(insns[k], pool, addrs)) == Some(BinOpKind::Sub),
        insns[k].mnemonic@ == "subs"@ ==> lifted_binop(arm32_lift_one(insns[k], pool, addrs)) == Some(BinOpKind::Sub),
        insns[k].mnemonic@ == "mul"@ ==> lifted_binop(arm32_lift_one(insns[k], pool, addrs)) == Some(BinOpKind::Mul),
        insns[k].mnemonic@ == "muls"@ ==> lifted_binop(arm32_lift_one(insns[k], pool, addrs)) == Some(BinOpKind::Mul),
        arm32_lift_prefix(insns, (k + 1) as nat, pool, addrs)
            == arm32_lift_prefix(insns, k as nat, pool, addrs) + arm32_lift_one(insns[k], pool, addrs),
{
    reveal_strlit("add");
    reveal_strlit("adds");
    reveal_strlit("ldr");
    reveal_strlit("ldr.w");
    reveal_strlit("mov");
    reveal_strlit("movs");
    reveal_strlit("movt");
    reveal_strlit("movw");
    reveal_strlit("mul");
    reveal_strlit("muls");
    reveal_strlit("str");
    reveal_strlit("str.w");
    reveal_strlit("sub");
    reveal_strlit("subs");
    let m = insns[k].mnemonic@;
    if m == "add"@ {
        assert(char_at("add"@, 0) != char_at("ldr"@, 0));
        assert("add"@.len() != "ldr.w"@.len());
        assert(char_at("add"@, 0) != char_at("str"@, 0));
        assert("add"@.len() != "str.w"@.len());
        assert(char_at("add"@, 0) != char_at("mov"@, 0));
        assert("add"@.len() != "movs"@.len());
        assert("add"@.len() != "movw"@.len());
        assert("add"@.len() != "movt"@.len());
    }
    if m == "adds"@ {
        assert("adds"@.len() != "ldr"@.len());
        assert("adds"@.len() != "ldr.w"@.len());
        assert("adds"@.len() != "str"@.len());
        assert("adds"@.len() != "str.w"@.len());
        assert("adds"@.len() != "mov"@.len());
        assert(char_at("adds"@, 0) != char_at("movs"@, 0));
        assert(char_at("adds"@, 0) != char_at("movw"@, 0));
        assert(char_at("adds"@, 0) != char_at("movt"@, 0));
    }
    if m == "sub"@ {
        assert(char_at("sub"@, 0) != char_at("ldr"@, 0));
        assert("sub"@.len() != "ldr.w"@.len());
        assert(char_at("sub"@, 1) != char_at("str"@, 1));
        assert("sub"@.len() != "str.w"@.len());
        assert(char_at("sub"@, 0) != char_at("mov"@, 0));
        assert("sub"@.len() != "movs"@.len());
        assert("sub"@.len() != "movw"@.len());
        assert("sub"@.len() != "movt"@.len());
        assert(char_at("sub"@, 0) != char_at("add"@, 0));
        assert("sub"@.len() != "adds"@.len());
    }
    if m == "subs"@ {
        assert("subs"@.len() != "ldr"@.len());
        assert("subs"@.len() != "ldr.w"@.len());
        assert("subs"@.len() != "str"@.len());
        assert("subs"@.len() != "str.w"@.len());
        assert("subs"@.len() != "mov"@.len());
        assert(char_at("subs"@, 0) != char_at("movs"@, 0));
        assert(char_at("subs"@, 0) != char_at("movw"@, 0));
        assert(char_at("subs"@, 0) != char_at("movt"@, 0));
        assert("subs"@.len() != "add"@.len());
        assert(char_at("subs"@, 0) != char_at("adds"@, 0));
    }
    if m == "mul"@ {
        assert(char_at("mul"@, 0) != char_at("ldr"@, 0));
        assert("mul"@.len() != "ldr.w"@.len());
        assert(char_at("mul"@, 0) != char_at("str"@, 0));
        assert("mul"@.len() != "str.w"@.len());
        assert(char_at("mul"@, 1) != char_at("mov"@, 1));
        assert("mul"@.len() != "movs"@.len());
        assert("mul"@.len() != "movw"@.len());
        assert("mul"@.len() != "movt"@.len());
        assert(char_at("mul"@, 0) != char_at("add"@, 0));
        assert("mul"@.len() != "adds"@.len());
        assert(char_at("mul"@, 0) != char_at("sub"@, 0));
        assert("mul"@.len() != "subs"@.len());
    }
    if m == "muls"@ {
        assert("muls"@.len() != "ldr"@.len());
        assert("muls"@.len() != "ldr.w"@.len());
        assert("muls"@.len() != "str"@.len());
        assert("muls"@.len() != "str.w"@.len());
        assert("muls"@.len() != "mov"@.len());
        assert(char_at("muls"@, 1) != char_at("movs"@, 1));
        assert(char_at("muls"@, 1) != char_at("movw"@, 1));
        assert(char_at("muls"@, 1) != char_at("movt"@, 1));
        assert("muls"@.len() != "add"@.len());
        assert(char_at("muls"@, 0) != char_at("adds"@, 0));
        assert("muls"@.len() != "sub"@.len());
        assert(char_at("muls"@, 0) != char_at("subs"@, 0));
    }
}

/// A conditional ARM32 branch tests the condition its mnemonic names: `beq`
/// equality, `bne` inequality, `blt`, `bgt`, `ble` and `bge` the signed
/// orderings.
pub proof fn law_arm32_conditions(
    insns: Seq<Instruction>,
    k: int,
    pool: Map<u64, Seq<char>>,
    addrs: Map<u64, StubCallKind>,
)
    requires
        0 <= k < insns.len(),
    ensures
        insns[k].mnemonic@ == "beq"@ ==> lifted_condition(arm32_lift_one(insns[k], pool, addrs)) == Some(ConditionView::Equal),
        insns[k].mnemonic@ == "bne"@ ==> lifted_condition(arm32_lift_one(insns[k], pool, addrs)) == Some(ConditionView::NotEqual),
        insns[k].mnemonic@ == "blt"@ ==> lifted_condition(arm32_lift_one(insns[k], pool, addrs)) == Some(ConditionView::LessThan),
        insns[k].mnemonic@ == "bgt"@ ==> lifted_condition(arm32_lift_one(insns[k], pool, addrs)) == Some(ConditionView::GreaterThan),
        insns[k].mnemonic@ == "ble"@ ==> lifted_condition(arm32_lift_one(insns[k], pool, addrs)) == Some(ConditionView::LessOrEqual),
        insns[k].mnemonic@ == "bge"@ ==> lifted_condition(arm32_lift_one(insns[k], pool, addrs)) == Some(ConditionView::GreaterOrEqual),
{
    reveal_strlit("add");
    reveal_strlit("adds");
    reveal_strlit("b");
    reveal_strlit("b.w");
    reveal_strlit("beq");
    reveal_strlit("bge");
    reveal_strlit("bgt");
    reveal_strlit("ble");
    reveal_strlit("blt");
    reveal_strlit("bne");
    reveal_strlit("cmn");
    reveal_strlit("cmp");
    reveal_strlit("ldr");
    reveal_strlit("ldr.w");
    reveal_strlit("mov");
    reveal_strlit("movs");
    reveal_strlit("movt");
    reveal_strlit("movw");
    reveal_strlit("mul");
    reveal_strlit("muls");
    reveal_strlit("str");
    reveal_strlit("str.w");
    reveal_strlit("sub");
    reveal_strlit("subs");
    let m = insns[k].mnemonic@;
    if m == "beq"@ {
        assert(char_at("beq"@, 0) != char_at("ldr"@, 0));
        assert("beq"@.len() != "ldr.w"@.len());
        assert(char_at("beq"@, 0) != char_at("str"@, 0));
        assert("beq"@.len() != "str.w"@.len());
        assert(char_at("beq"@, 0) != char_at("mov"@, 0));
        assert("beq"@.len() != "movs"@.len());
        assert("beq"@.len() != "movw"@.len());
        assert("beq"@.len() != "movt"@.len());
        assert(char_at("beq"@, 0) != char_at("add"@, 0));
        assert("beq"@.len() != "adds"@.len());
        assert(char_at("beq"@, 0) != char_at("sub"@, 0));
        assert("beq"@.len() != "subs"@.len());
        assert(char_at("beq"@, 0) != char_at("mul"@, 0));
        assert("beq"@.len() != "muls"@.len());
        assert(char_at("beq"@, 0) != char_at("cmp"@, 0));
        assert(char_at("beq"@, 0) != char_at("cmn"@, 0));
        assert("beq"@.len() != "b"@.len());
        assert(char_at("beq"@, 1) != char_at("b.w"@, 1));
    }
    if m == "bne"@ {
        assert(char_at("bne"@, 0) != char_at("ldr"@, 0));
        assert("bne"@.len() != "ldr.w"@.len());
        assert(char_at("bne"@, 0) != char_at("str"@, 0));
        assert("bne"@.len() != "str.w"@.len());
        assert(char_at("bne"@, 0) != char_at("mov"@, 0));
        assert("bne"@.len() != "movs"@.len());
        assert("bne"@.len() != "movw"@.len());
        assert("bne"@.len() != "movt"@.len());
        assert(char_at("bne"@, 0) != char_at("add"@, 0));
        assert("bne"@.len() != "adds"@.len());
        assert(char_at("bne"@, 0) != char_at("sub"@, 0));
        assert("bne"@.len() != "subs"@.len());
        assert(char_at("bne"@, 0) != char_at("mul"@, 0));
        assert("bne"@.len() != "muls"@.len());
        assert(char_at("bne"@, 0) != char_at("cmp"@, 0));
        assert(char_at("bne"@, 0) != char_at("cmn"@, 0));
        assert("bne"@.len() != "b"@.len());
        assert(char_at("bne"@, 1) != char_at("b.w"@, 1));
        assert(char_at("bne"@, 1) != char_at("beq"@, 1));
    }
    if m == "blt"@ {
        assert(char_at("blt"@, 0) != char_at("ldr"@, 0));
        assert("blt"@.len() != "ldr.w"@.len());
        assert(char_at("blt"@, 0) != char_at("str"@, 0));
        assert("blt"@.len() != "str.w"@.len());
        assert(char_at("blt"@, 0) != char_at("mov"@, 0));
        assert("blt"@.len() != "movs"@.len());
        assert("blt"@.len() != "movw"@.len());
        assert("blt"@.len() != "movt"@.len());
        assert(char_at("blt"@, 0) != char_at("add"@, 0));
        assert("blt"@.len() != "adds"@.len());
        assert(char_at("blt"@, 0) != char_at("sub"@, 0));
        assert("blt"@.len() != "subs"@.len());
        assert(char_at("blt"@, 0) != char_at("mul"@, 0));
        assert("blt"@.len() != "muls"@.len());
        assert(char_at("blt"@, 0) != char_at("cmp"@, 0));
        assert(char_at("blt"@, 0) != char_at("cmn"@, 0));
        assert("blt"@.len() != "b"@.len());
        assert(char_at("blt"@, 1) != char_at("b.w"@, 1));
        assert(char_at("blt"@, 1) != char_at("beq"@, 1));
        assert(char_at("blt"@, 1) != char_at("bne"@, 1));
    }
    if m == "bgt"@ {
        assert(char_at("bgt"@, 0) != char_at("ldr"@, 0));
        assert("bgt"@.len() != "ldr.w"@.len());
        assert(char_at("bgt"@, 0) != char_at("str"@, 0));
        assert("bgt"@.len() != "str.w"@.len());
        assert(char_at("bgt"@, 0) != char_at("mov"@, 0));
        assert("bgt"@.len() != "movs"@.len());
        assert("bgt"@.len() != "movw"@.len());
        assert("bgt"@.len() != "movt"@.len());
        assert(char_at("bgt"@, 0) != char_at("add"@, 0));
        assert("bgt"@.len() != "adds"@.len());
        assert(char_at("bgt"@, 0) != char_at("sub"@, 0));
        assert("bgt"@.len() != "subs"@.len());
        assert(char_at("bgt"@, 0) != char_at("mul"@, 0));
        assert("bgt"@.len() != "muls"@.len());
        assert(char_at("bgt"@, 0) != char_at("cmp"@, 0));
        assert(char_at("bgt"@, 0) != char_at("cmn"@, 0));
        assert("bgt"@.len() != "b"@.len());
        assert(char_at("bgt"@, 1) != char_at("b.w"@, 1));
        assert(char_at("bgt"@, 1) != char_at("beq"@, 1));
        assert(char_at("bgt"@, 1) != char_at("bne"@, 1));
        assert(char_at("bgt"@, 1) != char_at("blt"@, 1));
    }
    if m == "ble"@ {
        assert(char_at("ble"@, 0) != char_at("ldr"@, 0));
        assert("ble"@.len() != "ldr.w"@.len());
        assert(char_at("ble"@, 0) != char_at("str"@, 0));
        assert("ble"@.len() != "str.w"@.len());
        assert(char_at("ble"@, 0) != char_at("mov"@, 0));
        assert("ble"@.len() != "movs"@.len());
        assert("ble"@.len() != "movw"@.len());
        assert("ble"@.len() != "movt"@.len());
        assert(char_at("ble"@, 0) != char_at("add"@, 0));
        assert("ble"@.len() != "adds"@.len());
        assert(char_at("ble"@, 0) != char_at("sub"@, 0));
        assert("ble"@.len() != "subs"@.len());
        assert(char_at("ble"@, 0) != char_at("mul"@, 0));
        assert("ble"@.len() != "muls"@.len());
        assert(char_at("ble"@, 0) != char_at("cmp"@, 0));
        assert(char_at("ble"@, 0) != char_at("cmn"@, 0));
        assert("ble"@.len() != "b"@.len());
        assert(char_at("ble"@, 1) != char_at("b.w"@, 1));
        assert(char_at("ble"@, 1) != char_at("beq"@, 1));
        assert(char_at("ble"@, 1) != char_at("bne"@, 1));
        assert(char_at("ble"@, 2) != char_at("blt"@, 2));
        assert(char_at("ble"@, 1) != char_at("bgt"@, 1));
    }
    if m == "bge"@ {
        assert(char_at("bge"@, 0) != char_at("ldr"@, 0));
        assert("bge"@.len() != "ldr.w"@.len());
        assert(char_at("bge"@, 0) != char_at("str"@, 0));
        assert("bge"@.len() != "str.w"@.len());
        assert(char_at("bge"@, 0) != char_at("mov"@, 0));
        assert("bge"@.len() != "movs"@.len());
        assert("bge"@.len() != "movw"@.len());
        assert("bge"@.len() != "movt"@.len());
        assert(char_at("bge"@, 0) != char_at("add"@, 0));
        assert("bge"@.len() != "adds"@.len());
        assert(char_at("bge"@, 0) != char_at("sub"@, 0));
        assert("bge"@.len() != "subs"@.len());
        assert(char_at("bge"@, 0) != char_at("mul"@, 0));
        assert("bge"@.len() != "muls"@.len());
        assert(char_at("bge"@, 0) != char_at("cmp"@, 0));
        assert(char_at("bge"@, 0) != char_at("cmn"@, 0));
        assert("bge"@.len() != "b"@.len());
        assert(char_at("bge"@, 1) != char_at("b.w"@, 1));
        assert(char_at("bge"@, 1) != char_at("beq"@, 1));
        assert(char_at("bge"@, 1) != char_at("bne"@, 1));
        assert(char_at("bge"@, 1) != char_at("blt"@, 1));
        assert(char_at("bge"@, 2) != char_at("bgt"@, 2));
        assert(char_at("bge"@, 1) != char_at("ble"@, 1));
    }
}

} // verus!
