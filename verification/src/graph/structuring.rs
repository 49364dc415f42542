//! Structuring: from IR instructions and control-flow graphs to Dart syntax trees.

use vstd::prelude::*;
use crate::lifter::ir::{
    Reg, IR, IRView, Operand, OperandView, Condition, ConditionView, CallKind, CallKindView, BinOpKind,
    stub_call_name,
};
use crate::snapshot::addr_text;
use crate::text::{decimal_seq, int_decimal_seq, owned, push_str, push_decimal, push_signed_decimal};
use super::ast::{AstNode, AstExpr, DartLiteral, BinOp, UnaryOp, binop_text};
use super::cfg::{CFG, BasicBlock};
use super::digraph::{graph_nodes, graph_node};
use super::dominators::DominatorTree;
use super::loops::{LoopInfo, LoopInfoView, LoopKind, detect_loops, back_edges_upto, loop_of};
use super::ast_view::{NodeV, ExprV, LitV, node_v, nodes_v, stmts_v, expr_v};
use super::shape::{
    structured, structured_body, structured_succs, structured_loop, structured_tail, loop_views, block_at, first_loop, instr_stmts, flatten, grown,
    loop_cond_v, loop_node, tail_stmts, branch_stmts, condition_v, lemma_operand_v, lemma_condition_v, lemma_stmt_v, lemma_nodes_v_concat,
};
use crate::lifter::ir::BlockId;
use std::collections::HashSet;

verus! {

/// The variable name of a register: `v` and its number.
pub open spec fn reg_var(r: Reg) -> Seq<char> {
    "v"@ + decimal_seq(r.0 as nat)
}

/// The expression is a variable with this name.
pub open spec fn is_var(e: AstExpr, name: Seq<char>) -> bool {
    e matches AstExpr::Variable(s) && s@ == name
}

/// The name of a field: its known name, or `f` and its offset.
pub open spec fn field_text(field_name: Option<Seq<char>>, offset: u32) -> Seq<char> {
    match field_name {
        Some(f) => f,
        None => "f"@ + decimal_seq(offset as nat),
    }
}

/// The expression is a field of the variable of register `base`.
pub open spec fn is_field_of(e: AstExpr, base: Reg, field: Seq<char>) -> bool {
    e matches AstExpr::FieldAccess(b, f) && is_var(*b, reg_var(base)) && f@ == field
}

/// The expression of an operand: registers are variables, immediates integer
/// literals, pool objects and stack slots named variables, and fields field accesses.
pub open spec fn operand_expr_ok(e: AstExpr, op: OperandView) -> bool {
    match op {
        OperandView::Reg(r) => is_var(e, reg_var(r)),
        OperandView::Imm(v) => e matches AstExpr::Literal(DartLiteral::Int(x)) && x == v,
        OperandView::PoolObject(a) => is_var(e, "pool@"@ + addr_text(a)),
        OperandView::StackSlot(off) => is_var(e, "sp["@ + int_decimal_seq(off as int) + "]"@),
        OperandView::FieldAccess { base, offset, field_name } => is_field_of(e, base, field_text(field_name, offset)),
    }
}

/// Appends the variable name of a register.
fn push_reg_var(s: &mut String, r: Reg)
    ensures
        final(s)@ == old(s)@ + reg_var(r),
{
    push_str(s, "v");
    push_decimal(s, r.0 as u64);
    assert(s@ =~= old(s)@ + reg_var(r));
}

/// The variable of a register.
fn reg_variable(r: Reg) -> (e: AstExpr)
    ensures
        is_var(e, reg_var(r)),
{
    let mut s = String::new();
    push_reg_var(&mut s, r);
    assert(s@ =~= reg_var(r));
    AstExpr::Variable(s)
}

/// The name of a field.
fn field_name_of(field_name: &Option<String>, offset: u32) -> (f: String)
    ensures
        f@ == field_text(crate::lifter::ir::opt_str_view(*field_name), offset),
{
    match field_name {
        Some(n) => owned(n.as_str()),
        None => {
            let mut s = owned("f");
            push_decimal(&mut s, offset as u64);
            s
        },
    }
}

/// The expression of an operand.
pub fn operand_to_expr(op: &Operand) -> (e: AstExpr)
    ensures
        operand_expr_ok(e, op@),
{
    match op {
        Operand::Reg(r) => reg_variable(*r),
        Operand::Imm(v) => AstExpr::Literal(DartLiteral::Int(*v)),
        Operand::PoolObject(addr) => {
            let mut s = owned("pool@");
            addr.write_to(&mut s);
            AstExpr::Variable(s)
        },
        Operand::StackSlot(off) => {
            let mut s = owned("sp[");
            push_signed_decimal(&mut s, *off as i64);
            push_str(&mut s, "]");
            AstExpr::Variable(s)
        },
        Operand::FieldAccess { base, offset, field_name } => {
            let f = field_name_of(field_name, *offset);
            AstExpr::FieldAccess(Box::new(reg_variable(*base)), f)
        },
    }
}

/// The comparison of the implicit operands of a compare with this operator.
pub open spec fn is_cmp_of(e: AstExpr, op: BinOp) -> bool {
    e matches AstExpr::BinaryOp(l, o, r) && is_var(*l, "_cmp_lhs"@) && o == op && is_var(*r, "_cmp_rhs"@)
}

/// The expression of a branch condition: comparisons of the compared
/// operands, a flag register, its negation, or a type test.
pub open spec fn condition_expr_ok(e: AstExpr, c: ConditionView) -> bool {
    match c {
        ConditionView::Equal => is_cmp_of(e, BinOp::Equal),
        ConditionView::NotEqual => is_cmp_of(e, BinOp::NotEqual),
        ConditionView::LessThan => is_cmp_of(e, BinOp::LessThan),
        ConditionView::GreaterThan => is_cmp_of(e, BinOp::GreaterThan),
        ConditionView::LessOrEqual => is_cmp_of(e, BinOp::LessOrEqual),
        ConditionView::GreaterOrEqual => is_cmp_of(e, BinOp::GreaterOrEqual),
        ConditionView::True(r) => is_var(e, reg_var(r)),
        ConditionView::False(r) => e matches AstExpr::UnaryOp(o, x) && o == UnaryOp::Not && is_var(*x, reg_var(r)),
        ConditionView::TypeCheck(r, t) => e matches AstExpr::IsCheck(x, n) && is_var(*x, reg_var(r)) && n@ == t.name,
    }
}

/// The comparison of the compared operands with an operator.
fn compare_expr(op: BinOp) -> (e: AstExpr)
    ensures
        is_cmp_of(e, op),
{
    AstExpr::BinaryOp(
        Box::new(AstExpr::Variable(owned("_cmp_lhs"))),
        op,
        Box::new(AstExpr::Variable(owned("_cmp_rhs"))),
    )
}

/// The expression of a branch condition.
pub fn condition_to_expr(cond: &Condition) -> (e: AstExpr)
    ensures
        condition_expr_ok(e, cond@),
{
    match cond {
        Condition::Equal => compare_expr(BinOp::Equal),
        Condition::NotEqual => compare_expr(BinOp::NotEqual),
        Condition::LessThan => compare_expr(BinOp::LessThan),
        Condition::GreaterThan => compare_expr(BinOp::GreaterThan),
        Condition::LessOrEqual => compare_expr(BinOp::LessOrEqual),
        Condition::GreaterOrEqual => compare_expr(BinOp::GreaterOrEqual),
        Condition::True(r) => reg_variable(*r),
        Condition::False(r) => AstExpr::UnaryOp(UnaryOp::Not, Box::new(reg_variable(*r))),
        Condition::TypeCheck(r, t) => AstExpr::IsCheck(Box::new(reg_variable(*r)), owned(t.name.as_str())),
    }
}

/// The method name of a call: the target's address, vtable slot, selector,
/// stub or closure register.
pub open spec fn call_method_text(k: CallKindView) -> Seq<char> {
    match k {
        CallKindView::Direct(a) => "func@"@ + addr_text(a),
        CallKindView::Virtual(v) => "vtable["@ + decimal_seq(v as nat) + "]"@,
        CallKindView::DynamicDispatch(n) => n,
        CallKindView::Stub(s) => stub_call_name(s),
        CallKindView::Closure(r) => reg_var(r) + "()"@,
    }
}

/// The expression of a call: a method call without receiver or type arguments,
/// with one argument expression per operand.
pub open spec fn call_expr_ok(e: AstExpr, k: CallKindView, args: Seq<OperandView>) -> bool {
    e matches AstExpr::MethodCall { receiver, method, args: es, type_args }
        && receiver is None && method@ == call_method_text(k) && type_args@.len() == 0
        && es@.len() == args.len()
        && forall|i: int| 0 <= i < args.len() ==> operand_expr_ok(#[trigger] es@[i], args[i])
}

/// The expression of a call.
pub fn call_to_expr(kind: &CallKind, args: &[Operand]) -> (e: AstExpr)
    ensures
        call_expr_ok(e, kind@, crate::lifter::ir::operands_view(args@)),
{
    let method = match kind {
        CallKind::Direct(addr) => {
            let mut s = owned("func@");
            addr.write_to(&mut s);
            s
        },
        CallKind::Virtual(vtable) => {
            let mut s = owned("vtable[");
            push_decimal(&mut s, *vtable as u64);
            push_str(&mut s, "]");
            s
        },
        CallKind::DynamicDispatch(name) => owned(name.as_str()),
        CallKind::Stub(k) => owned(k.name()),
        CallKind::Closure(reg) => {
            let mut s = String::new();
            push_reg_var(&mut s, *reg);
            push_str(&mut s, "()");
            s
        },
    };
    proof {
        assert(method@ =~= call_method_text(kind@));
    }
    let mut es: Vec<AstExpr> = Vec::new();
    let mut i: usize = 0;
    while i < args.len()
        invariant
            0 <= i <= args@.len(),
            es@.len() == i,
            forall|j: int| 0 <= j < i ==> operand_expr_ok(#[trigger] es@[j], args@[j]@),
        decreases args@.len() - i,
    {
        es.push(operand_to_expr(&args[i]));
        i = i + 1;
    }
    AstExpr::MethodCall { receiver: None, method, args: es, type_args: Vec::new() }
}

} // verus!

verus! {

/// The Dart operator of an IR binary operation; both shifts right read `>>`.
pub open spec fn binop_of(k: BinOpKind) -> BinOp {
    match k {
        BinOpKind::Add => BinOp::Add,
        BinOpKind::Sub => BinOp::Sub,
        BinOpKind::Mul => BinOp::Mul,
        BinOpKind::Div => BinOp::Div,
        BinOpKind::Mod => BinOp::Mod,
        BinOpKind::And => BinOp::BitwiseAnd,
        BinOpKind::Or => BinOp::BitwiseOr,
        BinOpKind::Xor => BinOp::BitwiseXor,
        BinOpKind::Shl => BinOp::ShiftLeft,
        BinOpKind::Shr => BinOp::ShiftRight,
        BinOpKind::Asr => BinOp::ShiftRight,
    }
}

/// The value of a declaration of the variable of register `dst`, untyped, not
/// late and final as given, if `n` is one with a value.
pub open spec fn decl_value(n: AstNode, dst: Reg, is_final: bool) -> Option<AstExpr> {
    match n {
        AstNode::VarDecl { name, dart_type, value: Some(v), is_final: f, is_late } =>
            if name@ == reg_var(dst) && dart_type is None && f == is_final && !is_late { Some(v) } else { None },
        _ => None,
    }
}

/// The declared value of the statement `r`, as `decl_value` gives it.
pub open spec fn stmt_decl_value(r: Option<AstNode>, dst: Reg, is_final: bool) -> Option<AstExpr> {
    match r {
        Some(n) => decl_value(n, dst, is_final),
        None => None,
    }
}

/// The expression is the binary operation of an IR binary operation.
pub open spec fn binop_expr_ok(v: AstExpr, op: BinOpKind, lhs: OperandView, rhs: OperandView) -> bool {
    v matches AstExpr::BinaryOp(l, o, x) && o == binop_of(op) && operand_expr_ok(*l, lhs) && operand_expr_ok(*x, rhs)
}

/// The expression is the value a pool load gives: its resolved name, or `null`.
pub open spec fn pool_value_ok(v: AstExpr, resolved: Option<Seq<char>>) -> bool {
    match resolved {
        Some(t) => is_var(v, t),
        None => v matches AstExpr::Literal(DartLiteral::Null),
    }
}

/// The statement of an IR instruction: assignments, calls, null checks,
/// field stores and loads, pool loads and binary operations become
/// statements; an unknown instruction becomes a comment; control flow,
/// compares, phis, unary operations and type checks become none.
pub open spec fn ir_stmt_ok(r: Option<AstNode>, ir: IRView) -> bool {
    match ir {
        IRView::Assign(reg, op) => r matches Some(AstNode::ExprStatement(AstExpr::BinaryOp(l, o, x)))
            && is_var(*l, reg_var(reg)) && o == BinOp::Assign && operand_expr_ok(*x, op),
        IRView::Call { dst, kind, args } => match dst {
            Some(d) => stmt_decl_value(r, d, false) is Some && call_expr_ok(stmt_decl_value(r, d, false)->0, kind, args),
            None => r matches Some(AstNode::ExprStatement(e)) && call_expr_ok(e, kind, args),
        },
        IRView::NullCheck(reg) => r matches Some(AstNode::ExprStatement(AstExpr::NullAssert(x)))
            && is_var(*x, reg_var(reg)),
        IRView::StoreField { base, offset, value, field_name } =>
            r matches Some(AstNode::ExprStatement(AstExpr::BinaryOp(l, o, x)))
            && is_field_of(*l, base, field_text(field_name, offset)) && o == BinOp::Assign
            && operand_expr_ok(*x, value),
        IRView::LoadField { dst, base, offset, field_name } =>
            stmt_decl_value(r, dst, false) is Some
            && is_field_of(stmt_decl_value(r, dst, false)->0, base, field_text(field_name, offset)),
        IRView::LoadPool { dst, resolved, .. } =>
            stmt_decl_value(r, dst, true) is Some && pool_value_ok(stmt_decl_value(r, dst, true)->0, resolved),
        IRView::BinOp { dst, op, lhs, rhs } =>
            stmt_decl_value(r, dst, false) is Some && binop_expr_ok(stmt_decl_value(r, dst, false)->0, op, lhs, rhs),
        IRView::Unknown { raw_asm, .. } => r matches Some(AstNode::ExprStatement(e))
            && is_var(e, "/* "@ + raw_asm + " */"@),
        _ => r is None,
    }
}

/// A declaration of the variable of a register, untyped and not late.
fn decl_of(dst: Reg, value: AstExpr, is_final: bool) -> (n: AstNode)
    ensures
        decl_value(n, dst, is_final) == Some(value),
{
    let mut name = String::new();
    push_reg_var(&mut name, dst);
    assert(name@ =~= reg_var(dst));
    AstNode::VarDecl { name, dart_type: None, value: Some(value), is_final, is_late: false }
}

/// The statement of an IR instruction, if it has one.
pub fn ir_to_ast_stmt(ir: &IR) -> (r: Option<AstNode>)
    ensures
        ir_stmt_ok(r, ir@),
{
    match ir {
        IR::Assign(reg, operand) => Some(AstNode::ExprStatement(AstExpr::BinaryOp(
            Box::new(reg_variable(*reg)),
            BinOp::Assign,
            Box::new(operand_to_expr(operand)),
        ))),
        IR::Call { dst, kind, args } => {
            let call_expr = call_to_expr(kind, args.as_slice());
            match dst {
                Some(d) => Some(decl_of(*d, call_expr, false)),
                None => Some(AstNode::ExprStatement(call_expr)),
            }
        },
        IR::NullCheck(reg) => Some(AstNode::ExprStatement(AstExpr::NullAssert(Box::new(reg_variable(*reg))))),
        IR::StoreField { base, offset, value, field_name } => {
            let field = field_name_of(field_name, *offset);
            Some(AstNode::ExprStatement(AstExpr::BinaryOp(
                Box::new(AstExpr::FieldAccess(Box::new(reg_variable(*base)), field)),
                BinOp::Assign,
                Box::new(operand_to_expr(value)),
            )))
        },
        IR::LoadField { dst, base, offset, field_name } => {
            let field = field_name_of(field_name, *offset);
            Some(decl_of(*dst, AstExpr::FieldAccess(Box::new(reg_variable(*base)), field), false))
        },
        IR::LoadPool { dst, resolved, .. } => {
            let expr = match resolved {
                Some(name) => AstExpr::Variable(owned(name.as_str())),
                None => AstExpr::Literal(DartLiteral::Null),
            };
            Some(decl_of(*dst, expr, true))
        },
        IR::BinOp { dst, op, lhs, rhs } => {
            let bin_op = match op {
                BinOpKind::Add => BinOp::Add,
                BinOpKind::Sub => BinOp::Sub,
                BinOpKind::Mul => BinOp::Mul,
                BinOpKind::Div => BinOp::Div,
                BinOpKind::Mod => BinOp::Mod,
                BinOpKind::And => BinOp::BitwiseAnd,
                BinOpKind::Or => BinOp::BitwiseOr,
                BinOpKind::Xor => BinOp::BitwiseXor,
                BinOpKind::Shl => BinOp::ShiftLeft,
                BinOpKind::Shr => BinOp::ShiftRight,
                BinOpKind::Asr => BinOp::ShiftRight,
            };
            let value = AstExpr::BinaryOp(Box::new(operand_to_expr(lhs)), bin_op, Box::new(operand_to_expr(rhs)));
            Some(decl_of(*dst, value, false))
        },
        IR::Unknown { raw_asm, .. } => {
            let mut s = owned("/* ");
            push_str(&mut s, raw_asm.as_str());
            push_str(&mut s, " */");
            Some(AstNode::ExprStatement(AstExpr::Variable(s)))
        },
        _ => None,
    }
}

} // verus!

verus! {

broadcast use vstd::std_specs::hash::group_hash_axioms;

/// A finite set of 32-bit values has at most 2^32 elements.
pub(crate) proof fn lemma_u32_set_bound(s: Set<u32>)
    requires
        s.finite(),
    ensures
        s.len() <= 0x1_0000_0000,
{
    let f = |x: u32| x as int;
    let y = s.map(f);
    assert(vstd::relations::injective_on(f, s));
    vstd::set_lib::lemma_map_size(s, y, f);
    vstd::set_lib::lemma_int_range(0, 0x1_0000_0000);
    assert(y.subset_of(vstd::set_lib::set_int_range(0, 0x1_0000_0000)));
    vstd::set_lib::lemma_len_subset(y, vstd::set_lib::set_int_range(0, 0x1_0000_0000));
}

/// The condition of a `while` loop: the branch condition of the header's
/// last instruction, or `true`.
fn loop_condition(header: &BasicBlock) -> (e: AstExpr)
    ensures
        header.instructions@.len() > 0 && header.instructions@.last() is Branch ==>
            condition_expr_ok(e, header.instructions@.last()@->Branch_condition),
        !(header.instructions@.len() > 0 && header.instructions@.last() is Branch) ==>
            (e matches AstExpr::Literal(DartLiteral::Bool(b)) && b),
{
    let k = header.instructions.len();
    if k > 0 {
        match &header.instructions[k - 1] {
            IR::Branch { condition, .. } => {
                return condition_to_expr(condition);
            },
            _ => {},
        }
    }
    AstExpr::Literal(DartLiteral::Bool(true))
}

/// Appends a statement, or the statements of a block, to a list.
fn push_flattened(stmts: &mut Vec<AstNode>, next: AstNode)
    ensures
        next matches AstNode::Block(inner) ==> final(stmts)@ == old(stmts)@ + inner@,
        !(next is Block) ==> final(stmts)@ == old(stmts)@.push(next),
{
    match next {
        AstNode::Block(inner) => {
            let ghost inner_seq = inner@;
            let mut inner = inner;
            stmts.append(&mut inner);
            assert(stmts@ =~= old(stmts)@ + inner_seq);
        },
        other => {
            stmts.push(other);
        },
    }
}

/// The loop whose header is a block, if any: the first in the list.
fn find_loop(loops: &[LoopInfo], block_id: BlockId) -> (r: Option<usize>)
    ensures
        match r {
            Some(i) => i < loops@.len() && loops@[i as int].header == block_id
                && forall|j: int| 0 <= j < i ==> loops@[j].header != block_id,
            None => forall|j: int| 0 <= j < loops@.len() ==> loops@[j].header != block_id,
        },
{
    let mut i: usize = 0;
    while i < loops.len()
        invariant
            0 <= i <= loops@.len(),
            forall|j: int| 0 <= j < i ==> loops@[j].header != block_id,
        decreases loops@.len() - i,
    {
        if loops[i].header == block_id {
            return Some(i);
        }
        i = i + 1;
    }
    None
}

/// Structures the part of a CFG reached from one block: a loop header becomes a
/// loop over its body, a branch an `if`, a jump or fallthrough continues with
/// the next block, and a return or throw ends the statements. A block already
/// visited, or without a node, gives an empty block.
fn structure_block(
    cfg: &CFG,
    loops: &[LoopInfo],
    block_id: BlockId,
    visited: &mut HashSet<BlockId>,
) -> (node: AstNode)
    requires
        cfg.wf(),
        old(visited)@.finite(),
    ensures
        final(visited)@.finite(),
        old(visited)@.subset_of(final(visited)@),
        final(visited)@.contains(block_id),
        (node_v(node), final(visited)@) == structured(cfg.block_list(), cfg.index(), loop_views(loops@), block_id, old(visited)@),
    decreases 0x1_0000_0000 - old(visited)@.len(), 0int,
{
    let ghost bs = cfg.block_list();
    let ghost m = cfg.index();
    let ghost ls = loop_views(loops@);
    proof {
        lemma_u32_set_bound(visited@);
    }
    if visited.contains(&block_id) {
        let empty: Vec<AstNode> = Vec::new();
        proof {
            assert(nodes_v(empty@, 0) =~= Seq::<NodeV>::empty());
        }
        return AstNode::Block(empty);
    }
    let ghost entry_len = visited@.len();
    visited.insert(block_id);
    let ghost v1 = visited@;
    proof {
        assert(visited@.len() == entry_len + 1);
        lemma_u32_set_bound(visited@);
    }
    let block = match cfg.block(block_id) {
        Some(b) => b,
        None => {
            let empty: Vec<AstNode> = Vec::new();
            proof {
                assert(nodes_v(empty@, 0) =~= Seq::<NodeV>::empty());
            }
            return AstNode::Block(empty);
        },
    };
    proof {
        assert(bs[m[block_id] as int] == block@);
        assert(block_at(bs, m, block_id) == Some(block@));
    }
    let found = find_loop(loops, block_id);
    proof {
        lemma_first_loop(loops@, block_id, found);
    }
    match found {
        Some(li) => {
            proof {
                assert(ls[li as int] == loops@[li as int]@);
            }
            structure_loop(cfg, loops, li, block, visited)
        },
        None => structure_tail(cfg, loops, block, visited),
    }
}

/// The loop headed by a block: the blocks of its body structured in order
/// (a `while` loop's header and visited blocks skipped), under the loop
/// statement of its kind.
fn structure_loop(
    cfg: &CFG,
    loops: &[LoopInfo],
    li: usize,
    header: &BasicBlock,
    visited: &mut HashSet<BlockId>,
) -> (node: AstNode)
    requires
        cfg.wf(),
        li < loops@.len(),
        old(visited)@.finite(),
        old(visited)@.len() <= 0x1_0000_0000,
    ensures
        final(visited)@.finite(),
        old(visited)@.subset_of(final(visited)@),
        (node_v(node), final(visited)@) == structured_loop(
            cfg.block_list(),
            cfg.index(),
            loop_views(loops@),
            loops@[li as int]@,
            header@,
            old(visited)@,
        ),
    decreases 0x1_0000_0000 - old(visited)@.len(), 1int,
{
    let ghost bs = cfg.block_list();
    let ghost m = cfg.index();
    let ghost ls = loop_views(loops@);
    let loop_info = &loops[li];
    let ghost lv = loop_info@;
    let ghost v0 = visited@;
    let mut body_stmts: Vec<AstNode> = Vec::new();
    let mut i: usize = 0;
    while i < loop_info.body.len()
        invariant
            cfg.wf(),
            bs == cfg.block_list(),
            m == cfg.index(),
            ls == loop_views(loops@),
            lv == loop_info@,
            v0 == old(visited)@,
            visited@.finite(),
            v0.subset_of(visited@),
            visited@.len() >= v0.len(),
            visited@.len() <= 0x1_0000_0000,
            0 <= i <= loop_info.body@.len(),
            structured_body(bs, m, ls, lv, i as int, visited@, stmts_v(body_stmts@))
                == structured_body(bs, m, ls, lv, 0, v0, Seq::empty()),
        decreases loop_info.body@.len() - i,
    {
        let bid = loop_info.body[i];
        let skip = loop_info.kind == LoopKind::While && bid == loop_info.header;
        if !skip && !visited.contains(&bid) {
            let ghost before = visited@;
            let ghost acc = body_stmts@;
            let stmt = structure_block(cfg, loops, bid, visited);
            proof {
                vstd::set_lib::lemma_len_subset(before, visited@);
                lemma_u32_set_bound(visited@);
                assert(grown(before, visited@) == visited@);
                super::ast_view::lemma_nodes_v_push(acc, stmt);
            }
            body_stmts.push(stmt);
        }
        i = i + 1;
    }
    let ghost sv = stmts_v(body_stmts@);
    proof {
        assert(structured_body(bs, m, ls, lv, i as int, visited@, sv) == (sv, visited@));
    }
    let block = AstNode::Block(body_stmts);
    proof {
        assert(node_v(block) == NodeV::Block(sv));
    }
    let body = Box::new(block);
    let yes = AstExpr::Literal(DartLiteral::Bool(true));
    proof {
        assert(super::ast_view::lit_v(DartLiteral::Bool(true)) == LitV::Bool(true));
        assert(expr_v(yes) == ExprV::Literal(LitV::Bool(true)));
    }
    let node = match loop_info.kind {
        LoopKind::While => {
            let condition = loop_condition(header);
            proof {
                if header.instructions@.len() > 0 && header.instructions@.last() is Branch {
                    lemma_condition_v(condition, header.instructions@.last()@->Branch_condition);
                } else {
                    assert(expr_v(condition) == ExprV::Literal(LitV::Bool(true)));
                }
                assert(expr_v(condition) == loop_cond_v(header@));
            }
            AstNode::While { condition, body }
        },
        LoopKind::DoWhile => AstNode::DoWhile { body, condition: yes },
        _ => AstNode::While { condition: yes, body },
    };
    proof {
        assert(node_v(node) == loop_node(lv.kind, header@, sv));
    }
    node
}

/// The statements of a block's instructions, in order.
fn block_statements(block: &BasicBlock) -> (stmts: Vec<AstNode>)
    ensures
        stmts_v(stmts@) == instr_stmts(block@.instructions, block@.instructions.len() as int),
{
    let mut stmts: Vec<AstNode> = Vec::new();
    let mut k: usize = 0;
    while k < block.instructions.len()
        invariant
            0 <= k <= block.instructions@.len(),
            stmts_v(stmts@) == instr_stmts(block@.instructions, k as int),
        decreases block.instructions@.len() - k,
    {
        let ghost acc = stmts@;
        let r = ir_to_ast_stmt(&block.instructions[k]);
        proof {
            lemma_stmt_v(r, block.instructions@[k as int]@);
            assert(block@.instructions[k as int] == block.instructions@[k as int]@);
        }
        match r {
            Some(stmt) => {
                proof {
                    super::ast_view::lemma_nodes_v_push(acc, stmt);
                }
                stmts.push(stmt);
            },
            None => {},
        }
        proof {
            assert(stmts_v(stmts@) =~= instr_stmts(block@.instructions, k + 1));
        }
        k = k + 1;
    }
    stmts
}

/// The unvisited successors of a block structured in order, their
/// statements appended to `stmts`.
fn structure_succs(
    cfg: &CFG,
    loops: &[LoopInfo],
    block: &BasicBlock,
    stmts: &mut Vec<AstNode>,
    visited: &mut HashSet<BlockId>,
)
    requires
        cfg.wf(),
        old(visited)@.finite(),
        old(visited)@.len() <= 0x1_0000_0000,
    ensures
        final(visited)@.finite(),
        old(visited)@.subset_of(final(visited)@),
        (stmts_v(final(stmts)@), final(visited)@) == structured_succs(
            cfg.block_list(),
            cfg.index(),
            loop_views(loops@),
            block@.successors,
            0,
            old(visited)@,
            stmts_v(old(stmts)@),
        ),
    decreases 0x1_0000_0000 - old(visited)@.len(), 1int,
{
    let ghost bs = cfg.block_list();
    let ghost m = cfg.index();
    let ghost ls = loop_views(loops@);
    let ghost v0 = visited@;
    let ghost base = stmts_v(stmts@);
    let mut j: usize = 0;
    while j < block.successors.len()
        invariant
            cfg.wf(),
            bs == cfg.block_list(),
            m == cfg.index(),
            ls == loop_views(loops@),
            v0 == old(visited)@,
            base == stmts_v(old(stmts)@),
            visited@.finite(),
            v0.subset_of(visited@),
            visited@.len() >= v0.len(),
            visited@.len() <= 0x1_0000_0000,
            0 <= j <= block.successors@.len(),
            structured_succs(bs, m, ls, block@.successors, j as int, visited@, stmts_v(stmts@))
                == structured_succs(bs, m, ls, block@.successors, 0, v0, base),
        decreases block.successors@.len() - j,
    {
        let succ = block.successors[j];
        if !visited.contains(&succ) {
            let ghost before = visited@;
            let next = structure_block(cfg, loops, succ, visited);
            let ghost acc = stmts@;
            proof {
                vstd::set_lib::lemma_len_subset(before, visited@);
                lemma_u32_set_bound(visited@);
                assert(grown(before, visited@) == visited@);
                lemma_flatten_v(acc, next);
            }
            push_flattened(stmts, next);
        }
        j = j + 1;
    }
}

/// After the statements `stmts`, the `if` of a branch: the statements of
/// its true target, and those of its false target unless visited by then.
fn structure_branch(
    cfg: &CFG,
    loops: &[LoopInfo],
    condition: &Condition,
    true_target: BlockId,
    false_target: BlockId,
    stmts: &mut Vec<AstNode>,
    visited: &mut HashSet<BlockId>,
)
    requires
        cfg.wf(),
        old(visited)@.finite(),
        old(visited)@.len() <= 0x1_0000_0000,
    ensures
        final(visited)@.finite(),
        old(visited)@.subset_of(final(visited)@),
        (stmts_v(final(stmts)@), final(visited)@) == branch_stmts(
            cfg.block_list(),
            cfg.index(),
            loop_views(loops@),
            stmts_v(old(stmts)@),
            condition@,
            true_target,
            false_target,
            old(visited)@,
        ),
    decreases 0x1_0000_0000 - old(visited)@.len(), 1int,
{
    let ghost v0 = visited@;
    let cond_expr = condition_to_expr(condition);
    proof {
        lemma_condition_v(cond_expr, condition@);
    }
    let then_body = structure_block(cfg, loops, true_target, visited);
    proof {
        vstd::set_lib::lemma_len_subset(v0, visited@);
        lemma_u32_set_bound(visited@);
        assert(grown(v0, visited@) == visited@);
    }
    let ghost mid = visited@;
    let else_body = if !visited.contains(&false_target) {
        let e = structure_block(cfg, loops, false_target, visited);
        proof {
            assert(super::ast_view::opt_node_v(Some(Box::new(e))) == Some(Box::new(node_v(e))));
        }
        Some(Box::new(e))
    } else {
        None
    };
    let ghost acc = stmts@;
    let item = AstNode::If { condition: cond_expr, then_body: Box::new(then_body), else_body };
    proof {
        super::ast_view::lemma_nodes_v_push(acc, item);
        assert(node_v(item) == NodeV::If {
            condition: condition_v(condition@),
            then_body: Box::new(node_v(then_body)),
            else_body: super::ast_view::opt_node_v(else_body),
        });
    }
    stmts.push(item);
}

/// After the statements of a block's instructions, what its last
/// instruction leads to: an `if` over a branch's targets, a jump target's
/// statements, a `return` or `throw`, or the statements of its unvisited
/// successors.
fn structure_last(
    cfg: &CFG,
    loops: &[LoopInfo],
    block: &BasicBlock,
    stmts: &mut Vec<AstNode>,
    visited: &mut HashSet<BlockId>,
)
    requires
        cfg.wf(),
        old(visited)@.finite(),
        old(visited)@.len() <= 0x1_0000_0000,
        stmts_v(old(stmts)@) == instr_stmts(block@.instructions, block@.instructions.len() as int),
    ensures
        final(visited)@.finite(),
        old(visited)@.subset_of(final(visited)@),
        (stmts_v(final(stmts)@), final(visited)@) == tail_stmts(cfg.block_list(), cfg.index(), loop_views(loops@), block@, old(visited)@),
    decreases 0x1_0000_0000 - old(visited)@.len(), 2int,
{
    let ghost bs = cfg.block_list();
    let ghost m = cfg.index();
    let ghost ls = loop_views(loops@);
    let ghost v0 = visited@;
    let ghost base = stmts_v(stmts@);
    let n = block.instructions.len();
    if n > 0 {
        proof {
            assert(block@.instructions[n - 1] == block.instructions@[n - 1]@);
        }
        match &block.instructions[n - 1] {
            IR::Branch { condition, true_target, false_target } => {
                structure_branch(cfg, loops, condition, *true_target, *false_target, stmts, visited);
                proof {
                    assert((stmts_v(stmts@), visited@) == tail_stmts(bs, m, ls, block@, v0));
                }
            },
            IR::Jump(target) => {
                let next = structure_block(cfg, loops, *target, visited);
                let ghost acc = stmts@;
                proof {
                    lemma_flatten_v(acc, next);
                }
                push_flattened(stmts, next);
                proof {
                    assert((stmts_v(stmts@), visited@) == tail_stmts(bs, m, ls, block@, v0));
                }
            },
            IR::Return(val) => {
                let ret_expr = match val {
                    Some(v) => {
                        let e = operand_to_expr(v);
                        proof {
                            lemma_operand_v(e, v@);
                            assert(super::ast_view::opt_expr_v(Some(e)) == Some(expr_v(e)));
                        }
                        Some(e)
                    },
                    None => None,
                };
                let ghost acc = stmts@;
                proof {
                    assert(super::ast_view::opt_expr_v(ret_expr) == match *val {
                        Some(o) => Some(super::shape::operand_v(o@)),
                        None => None::<ExprV>,
                    });
                }
                let item = AstNode::Return(ret_expr);
                proof {
                    super::ast_view::lemma_nodes_v_push(acc, item);
                }
                stmts.push(item);
                proof {
                    assert((stmts_v(stmts@), visited@) == tail_stmts(bs, m, ls, block@, v0));
                }
            },
            IR::Throw(val) => {
                let e = operand_to_expr(val);
                proof {
                    lemma_operand_v(e, val@);
                }
                let ghost acc = stmts@;
                let item = AstNode::Throw(e);
                proof {
                    super::ast_view::lemma_nodes_v_push(acc, item);
                }
                stmts.push(item);
                proof {
                    assert((stmts_v(stmts@), visited@) == tail_stmts(bs, m, ls, block@, v0));
                }
            },
            _ => {
                structure_succs(cfg, loops, block, stmts, visited);
                proof {
                    assert((stmts_v(stmts@), visited@) == tail_stmts(bs, m, ls, block@, v0));
                }
            },
        }
    }
}

/// A block that heads no loop: the statements of its instructions, then
/// what its last instruction leads to, as one statement.
fn structure_tail(
    cfg: &CFG,
    loops: &[LoopInfo],
    block: &BasicBlock,
    visited: &mut HashSet<BlockId>,
) -> (node: AstNode)
    requires
        cfg.wf(),
        old(visited)@.finite(),
        old(visited)@.len() <= 0x1_0000_0000,
    ensures
        final(visited)@.finite(),
        old(visited)@.subset_of(final(visited)@),
        (node_v(node), final(visited)@) == structured_tail(cfg.block_list(), cfg.index(), loop_views(loops@), block@, old(visited)@),
    decreases 0x1_0000_0000 - old(visited)@.len(), 3int,
{
    let mut stmts = block_statements(block);
    structure_last(cfg, loops, block, &mut stmts, visited);
    proof {
        super::ast_view::lemma_nodes_v_len(stmts@, stmts@.len() as int);
    }
    if stmts.len() == 1 {
        proof {
            super::ast_view::lemma_nodes_v_index(stmts@, 1, 0);
        }
        stmts.pop().unwrap()
    } else {
        AstNode::Block(stmts)
    }
}

/// The position `find_loop` gives is the first loop of the header.
proof fn lemma_first_loop(loops: Seq<LoopInfo>, id: BlockId, found: Option<usize>)
    requires
        match found {
            Some(i) => i < loops.len() && loops[i as int].header == id
                && forall|j: int| 0 <= j < i ==> loops[j].header != id,
            None => forall|j: int| 0 <= j < loops.len() ==> loops[j].header != id,
        },
    ensures
        first_loop(loop_views(loops), id) == match found {
            Some(i) => Some(i as int),
            None => None::<int>,
        },
{
    let ls = loop_views(loops);
    match found {
        Some(i) => {
            assert(ls[i as int].header == id);
            let c = choose|c: int| 0 <= c < ls.len() && ls[c].header == id && forall|j: int| 0 <= j < c ==> ls[j].header != id;
            assert(0 <= c < ls.len() && ls[c].header == id && forall|j: int| 0 <= j < c ==> ls[j].header != id);
            if c < i {
                assert(loops[c].header == ls[c].header);
            }
            if i < c {
                assert(ls[i as int].header != id);
            }
        },
        None => {
            assert forall|j: int| 0 <= j < ls.len() implies ls[j].header != id by {
                assert(loops[j].header == ls[j].header);
            }
        },
    }
}

/// Appending a statement, or a block's statements, keeps the models in step.
proof fn lemma_flatten_v(acc: Seq<AstNode>, next: AstNode)
    ensures
        next matches AstNode::Block(inner) ==> stmts_v(acc + inner@) == flatten(stmts_v(acc), node_v(next)),
        !(next is Block) ==> stmts_v(acc.push(next)) == flatten(stmts_v(acc), node_v(next)),
{
    match next {
        AstNode::Block(inner) => {
            lemma_nodes_v_concat(acc, inner@);
        },
        _ => {
            super::ast_view::lemma_nodes_v_push(acc, next);
        },
    }
}

/// The loops of a CFG, as `detect_loops` finds them: one per back edge, in
/// the order of the back edges.
pub open spec fn detected_loops(cfg: &CFG, dom_tree: &DominatorTree, ls: Seq<LoopInfoView>) -> bool {
    let be = back_edges_upto(cfg.block_list(), dom_tree.idom_map(), cfg.block_list().len() as int);
    &&& ls.len() == be.len()
    &&& forall|i: int| 0 <= i < ls.len() ==> loop_of(cfg, be[i].1, be[i].0, #[trigger] ls[i])
}

/// Structure a CFG into high-level AST nodes, starting from its entry block,
/// with the loops `detect_loops` finds and nothing visited yet.
pub fn structure_cfg(cfg: &CFG, dom_tree: &DominatorTree) -> (node: AstNode)
    requires
        cfg.wf(),
        cfg.entry < graph_nodes(cfg.graph).len(),
    ensures
        exists|ls: Seq<LoopInfoView>| detected_loops(cfg, dom_tree, ls)
            && node_v(node) == structured(
                cfg.block_list(),
                cfg.index(),
                ls,
                graph_nodes(cfg.graph)[cfg.entry as int].id,
                Set::empty(),
            ).0,
{
    let loops = detect_loops(cfg, dom_tree);
    let mut visited: HashSet<BlockId> = HashSet::new();
    let entry_id = graph_node(&cfg.graph, cfg.entry).id;
    proof {
        assert(visited@ =~= Set::<u32>::empty());
    }
    let node = structure_block(cfg, loops.as_slice(), entry_id, &mut visited);
    proof {
        let ls = loop_views(loops@);
        assert(detected_loops(cfg, dom_tree, ls));
    }
    node
}


/// Each IR arithmetic or bitwise operation becomes its own Dart operator:
/// distinct operations stay distinct, but for the two right shifts, which
/// Dart writes alike, and addition, subtraction, multiplication, division
/// and remainder print as `+`, `-`, `*`, `/` and `%`.
pub proof fn law_ir_operators_in_dart(k: BinOpKind, j: BinOpKind)
    ensures
        binop_of(k) == binop_of(j) ==> k == j || ((k == BinOpKind::Shr || k == BinOpKind::Asr)
            && (j == BinOpKind::Shr || j == BinOpKind::Asr)),
        binop_text(binop_of(BinOpKind::Add)) == "+"@,
        binop_text(binop_of(BinOpKind::Sub)) == "-"@,
        binop_text(binop_of(BinOpKind::Mul)) == "*"@,
        binop_text(binop_of(BinOpKind::Div)) == "/"@,
        binop_text(binop_of(BinOpKind::Mod)) == "%"@,
{
}

} // verus!
