//! The shape of structured code: the syntax tree, as a model, that
//! structuring makes of IR instructions and of a control-flow graph.

use vstd::prelude::*;
use crate::lifter::ir::{IRView, OperandView, ConditionView, CallKindView, Reg};
use crate::snapshot::addr_text;
use crate::text::int_decimal_seq;
use super::ast::{AstNode, AstExpr, BinOp, UnaryOp};
use super::ast_view::{ExprV, NodeV, LitV, expr_v, node_v, exprs_v, nodes_v, lemma_exprs_v_index, lemma_exprs_v_len};
use super::cfg::BasicBlockView;
use super::loops::{LoopInfoView, LoopKind};
use super::structuring::{
    reg_var, field_text, call_method_text, binop_of, operand_expr_ok, condition_expr_ok, call_expr_ok,
    ir_stmt_ok,
};

verus! {

/// The model of the expression of an operand.
pub open spec fn operand_v(op: OperandView) -> ExprV {
    match op {
        OperandView::Reg(r) => ExprV::Variable(reg_var(r)),
        OperandView::Imm(v) => ExprV::Literal(LitV::Int(v)),
        OperandView::PoolObject(a) => ExprV::Variable("pool@"@ + addr_text(a)),
        OperandView::StackSlot(off) => ExprV::Variable("sp["@ + int_decimal_seq(off as int) + "]"@),
        OperandView::FieldAccess { base, offset, field_name } =>
            ExprV::FieldAccess(Box::new(ExprV::Variable(reg_var(base))), field_text(field_name, offset)),
    }
}

/// The model of a comparison of the compared operands.
pub open spec fn cmp_v(op: BinOp) -> ExprV {
    ExprV::BinaryOp(Box::new(ExprV::Variable("_cmp_lhs"@)), op, Box::new(ExprV::Variable("_cmp_rhs"@)))
}

/// The model of the expression of a branch condition.
pub open spec fn condition_v(c: ConditionView) -> ExprV {
    match c {
        ConditionView::Equal => cmp_v(BinOp::Equal),
        ConditionView::NotEqual => cmp_v(BinOp::NotEqual),
        ConditionView::LessThan => cmp_v(BinOp::LessThan),
        ConditionView::GreaterThan => cmp_v(BinOp::GreaterThan),
        ConditionView::LessOrEqual => cmp_v(BinOp::LessOrEqual),
        ConditionView::GreaterOrEqual => cmp_v(BinOp::GreaterOrEqual),
        ConditionView::True(r) => ExprV::Variable(reg_var(r)),
        ConditionView::False(r) => ExprV::UnaryOp(UnaryOp::Not, Box::new(ExprV::Variable(reg_var(r)))),
        ConditionView::TypeCheck(r, t) => ExprV::IsCheck(Box::new(ExprV::Variable(reg_var(r))), t.name),
    }
}

/// The model of the expression of a call.
pub open spec fn call_v(k: CallKindView, args: Seq<OperandView>) -> ExprV {
    ExprV::MethodCall {
        receiver: None,
        method: call_method_text(k),
        args: args.map_values(|o: OperandView| operand_v(o)),
        type_args: Seq::empty(),
    }
}

/// The model of an untyped, not late declaration of a register's variable.
pub open spec fn decl_v(dst: Reg, value: ExprV, is_final: bool) -> NodeV {
    NodeV::VarDecl { name: reg_var(dst), dart_type: None, value: Some(value), is_final, is_late: false }
}

/// The model of the statement of an IR instruction, if it has one.
pub open spec fn stmt_v(ir: IRView) -> Option<NodeV> {
    match ir {
        IRView::Assign(reg, op) => Some(NodeV::ExprStatement(ExprV::BinaryOp(
            Box::new(ExprV::Variable(reg_var(reg))),
            BinOp::Assign,
            Box::new(operand_v(op)),
        ))),
        IRView::Call { dst, kind, args } => match dst {
            Some(d) => Some(decl_v(d, call_v(kind, args), false)),
            None => Some(NodeV::ExprStatement(call_v(kind, args))),
        },
        IRView::NullCheck(reg) => Some(NodeV::ExprStatement(ExprV::NullAssert(Box::new(ExprV::Variable(reg_var(reg)))))),
        IRView::StoreField { base, offset, value, field_name } => Some(NodeV::ExprStatement(ExprV::BinaryOp(
            Box::new(ExprV::FieldAccess(Box::new(ExprV::Variable(reg_var(base))), field_text(field_name, offset))),
            BinOp::Assign,
            Box::new(operand_v(value)),
        ))),
        IRView::LoadField { dst, base, offset, field_name } => Some(decl_v(
            dst,
            ExprV::FieldAccess(Box::new(ExprV::Variable(reg_var(base))), field_text(field_name, offset)),
            false,
        )),
        IRView::LoadPool { dst, resolved, .. } => Some(decl_v(
            dst,
            match resolved {
                Some(t) => ExprV::Variable(t),
                None => ExprV::Literal(LitV::Null),
            },
            true,
        )),
        IRView::BinOp { dst, op, lhs, rhs } => Some(decl_v(
            dst,
            ExprV::BinaryOp(Box::new(operand_v(lhs)), binop_of(op), Box::new(operand_v(rhs))),
            false,
        )),
        IRView::Unknown { raw_asm, .. } => Some(NodeV::ExprStatement(ExprV::Variable("/* "@ + raw_asm + " */"@))),
        _ => None,
    }
}

/// The model of an optional statement.
pub open spec fn opt_v(r: Option<AstNode>) -> Option<NodeV> {
    match r {
        Some(n) => Some(node_v(n)),
        None => None,
    }
}

/// An operand's expression has the operand's model.
pub proof fn lemma_operand_v(e: AstExpr, op: OperandView)
    requires
        operand_expr_ok(e, op),
    ensures
        expr_v(e) == operand_v(op),
{
    match op {
        OperandView::FieldAccess { base, offset, field_name } => {
            match e {
                AstExpr::FieldAccess(b, f) => {
                    assert(expr_v(*b) == ExprV::Variable(reg_var(base)));
                },
                _ => {},
            }
        },
        _ => {},
    }
}

/// A condition's expression has the condition's model.
pub proof fn lemma_condition_v(e: AstExpr, c: ConditionView)
    requires
        condition_expr_ok(e, c),
    ensures
        expr_v(e) == condition_v(c),
{
    match e {
        AstExpr::BinaryOp(l, o, r) => {
            assert(expr_v(*l) == ExprV::Variable("_cmp_lhs"@));
            assert(expr_v(*r) == ExprV::Variable("_cmp_rhs"@));
        },
        AstExpr::UnaryOp(o, x) => {
            assert(expr_v(*x) == ExprV::Variable(reg_var(c->False_0)));
        },
        AstExpr::IsCheck(x, n) => {
            assert(expr_v(*x) == ExprV::Variable(reg_var(c->TypeCheck_0)));
        },
        _ => {},
    }
}

/// A call's expression has the call's model.
pub proof fn lemma_call_v(e: AstExpr, k: CallKindView, args: Seq<OperandView>)
    requires
        call_expr_ok(e, k, args),
    ensures
        expr_v(e) == call_v(k, args),
{
    match e {
        AstExpr::MethodCall { receiver, method, args: es, type_args } => {
            let n = es@.len() as int;
            lemma_exprs_v_len(es@, n);
            assert forall|j: int| 0 <= j < n implies #[trigger] exprs_v(es@, n)[j] == operand_v(args[j]) by {
                lemma_exprs_v_index(es@, n, j);
                lemma_operand_v(es@[j], args[j]);
            }
            assert(exprs_v(es@, n) =~= args.map_values(|o: OperandView| operand_v(o)));
            assert(type_args@.map_values(|x: String| x@) =~= Seq::<Seq<char>>::empty());
        },
        _ => {},
    }
}

/// An instruction's statement has the instruction's model.
pub proof fn lemma_stmt_v(r: Option<AstNode>, ir: IRView)
    requires
        ir_stmt_ok(r, ir),
    ensures
        opt_v(r) == stmt_v(ir),
{
    match ir {
        IRView::Assign(reg, op) => {
            let e = r->0->ExprStatement_0;
            lemma_operand_v(*e->BinaryOp_2, op);
            assert(expr_v(*e->BinaryOp_0) == ExprV::Variable(reg_var(reg)));
            assert(expr_v(e) == ExprV::BinaryOp(Box::new(ExprV::Variable(reg_var(reg))), BinOp::Assign, Box::new(operand_v(op))));
        },
        IRView::Call { dst, kind, args } => {
            let n = r->0;
            match dst {
                Some(d) => {
                    let v = n->VarDecl_value->0;
                    lemma_call_v(v, kind, args);
                    assert(super::ast_view::opt_expr_v(n->VarDecl_value) == Some(expr_v(v)));
                    assert(node_v(n) == decl_v(d, expr_v(v), false));
                },
                None => {
                    lemma_call_v(n->ExprStatement_0, kind, args);
                },
            }
        },
        IRView::NullCheck(reg) => {
            let e = r->0->ExprStatement_0;
            assert(expr_v(*e->NullAssert_0) == ExprV::Variable(reg_var(reg)));
        },
        IRView::StoreField { base, offset, value, field_name } => {
            let e = r->0->ExprStatement_0;
            let l = *e->BinaryOp_0;
            lemma_operand_v(*e->BinaryOp_2, value);
            assert(expr_v(*l->FieldAccess_0) == ExprV::Variable(reg_var(base)));
            assert(expr_v(l) == ExprV::FieldAccess(Box::new(ExprV::Variable(reg_var(base))), field_text(field_name, offset)));
        },
        IRView::LoadField { dst, base, offset, field_name } => {
            let n = r->0;
            let v = n->VarDecl_value->0;
            assert(expr_v(*v->FieldAccess_0) == ExprV::Variable(reg_var(base)));
            assert(expr_v(v) == ExprV::FieldAccess(Box::new(ExprV::Variable(reg_var(base))), field_text(field_name, offset)));
            assert(super::ast_view::opt_expr_v(n->VarDecl_value) == Some(expr_v(v)));
            assert(node_v(n) == decl_v(dst, expr_v(v), false));
        },
        IRView::LoadPool { dst, resolved, .. } => {
            let n = r->0;
            let v = n->VarDecl_value->0;
            match resolved {
                Some(t) => {
                    assert(expr_v(v) == ExprV::Variable(t));
                },
                None => {
                    assert(super::ast_view::lit_v(v->Literal_0) == LitV::Null);
                    assert(expr_v(v) == ExprV::Literal(LitV::Null));
                },
            }
            assert(super::ast_view::opt_expr_v(n->VarDecl_value) == Some(expr_v(v)));
        },
        IRView::BinOp { dst, op, lhs, rhs } => {
            let n = r->0;
            let v = n->VarDecl_value->0;
            lemma_operand_v(*v->BinaryOp_0, lhs);
            lemma_operand_v(*v->BinaryOp_2, rhs);
            assert(super::ast_view::opt_expr_v(n->VarDecl_value) == Some(expr_v(v)));
            assert(node_v(n) == decl_v(dst, expr_v(v), false));
        },
        IRView::Unknown { raw_asm, .. } => {
            let e = r->0->ExprStatement_0;
            assert(expr_v(e) == ExprV::Variable("/* "@ + raw_asm + " */"@));
        },
        _ => {},
    }
}

/// The block with a given id, through the graph's index.
pub open spec fn block_at(bs: Seq<BasicBlockView>, m: Map<u32, usize>, id: u32) -> Option<BasicBlockView> {
    if m.contains_key(id) && (m[id] as int) < bs.len() {
        Some(bs[m[id] as int])
    } else {
        None
    }
}

/// The position of the first loop with a given header, if any.
pub open spec fn first_loop(ls: Seq<LoopInfoView>, id: u32) -> Option<int> {
    if exists|i: int| 0 <= i < ls.len() && ls[i].header == id {
        Some(choose|i: int| 0 <= i < ls.len() && ls[i].header == id && forall|j: int| 0 <= j < i ==> ls[j].header != id)
    } else {
        None
    }
}

/// The statements of the first `k` instructions of a block.
pub open spec fn instr_stmts(ins: Seq<IRView>, k: int) -> Seq<NodeV>
    decreases k,
{
    if k <= 0 || k > ins.len() {
        Seq::empty()
    } else {
        instr_stmts(ins, k - 1) + match stmt_v(ins[k - 1]) {
            Some(n) => seq![n],
            None => Seq::empty(),
        }
    }
}

/// Appends a statement, or the statements of a block, to a list.
pub open spec fn flatten(stmts: Seq<NodeV>, next: NodeV) -> Seq<NodeV> {
    match next {
        NodeV::Block(inner) => stmts + inner,
        _ => stmts.push(next),
    }
}

/// The visited set after a step: the step's set where it grew the one
/// before within the 32-bit ids, else the one before.
pub open spec fn grown(before: Set<u32>, after: Set<u32>) -> Set<u32> {
    if after.finite() && before.subset_of(after) && after.len() <= 0x1_0000_0000 {
        after
    } else {
        before
    }
}

/// The condition of a `while` loop: the header's last branch, or `true`.
pub open spec fn loop_cond_v(blk: BasicBlockView) -> ExprV {
    if blk.instructions.len() > 0 && blk.instructions.last() is Branch {
        condition_v(blk.instructions.last()->Branch_condition)
    } else {
        ExprV::Literal(LitV::Bool(true))
    }
}

/// The loop statement of a loop's kind over a body.
pub open spec fn loop_node(kind: LoopKind, header: BasicBlockView, body: Seq<NodeV>) -> NodeV {
    match kind {
        LoopKind::While => NodeV::While { condition: loop_cond_v(header), body: Box::new(NodeV::Block(body)) },
        LoopKind::DoWhile => NodeV::DoWhile { body: Box::new(NodeV::Block(body)), condition: ExprV::Literal(LitV::Bool(true)) },
        _ => NodeV::While { condition: ExprV::Literal(LitV::Bool(true)), body: Box::new(NodeV::Block(body)) },
    }
}

/// A list of statements as one statement: its only statement, or a block.
pub open spec fn single_or_block(stmts: Seq<NodeV>) -> NodeV {
    if stmts.len() == 1 { stmts[0] } else { NodeV::Block(stmts) }
}

/// What structuring makes of the part of a graph reached from block `b`
/// when the blocks of `vis` were already visited: the statement and the
/// visited set after it. A visited block, or an id without a block, gives an
/// empty block; a loop header a loop over its body; another block its
/// statements and what its last instruction leads to.
pub open spec fn structured(
    bs: Seq<BasicBlockView>,
    m: Map<u32, usize>,
    ls: Seq<LoopInfoView>,
    b: u32,
    vis: Set<u32>,
) -> (NodeV, Set<u32>)
    decreases 0x1_0000_0000 - vis.len(), 0int, 0int,
{
    if !vis.finite() || vis.len() >= 0x1_0000_0000 || vis.contains(b) {
        (NodeV::Block(Seq::empty()), vis)
    } else {
        let v1 = vis.insert(b);
        match block_at(bs, m, b) {
            None => (NodeV::Block(Seq::empty()), v1),
            Some(blk) => match first_loop(ls, b) {
                Some(li) => structured_loop(bs, m, ls, ls[li], blk, v1),
                None => structured_tail(bs, m, ls, blk, v1),
            },
        }
    }
}

/// A loop with header `header`: its body's blocks structured in order,
/// under the loop statement of its kind.
pub open spec fn structured_loop(
    bs: Seq<BasicBlockView>,
    m: Map<u32, usize>,
    ls: Seq<LoopInfoView>,
    li: LoopInfoView,
    header: BasicBlockView,
    vis: Set<u32>,
) -> (NodeV, Set<u32>)
    decreases 0x1_0000_0000 - vis.len(), 2int, 0int,
{
    let r = structured_body(bs, m, ls, li, 0, vis, Seq::empty());
    (loop_node(li.kind, header, r.0), r.1)
}

/// A block that heads no loop: the statements of its instructions, then
/// what its last instruction leads to, as one statement.
pub open spec fn structured_tail(
    bs: Seq<BasicBlockView>,
    m: Map<u32, usize>,
    ls: Seq<LoopInfoView>,
    blk: BasicBlockView,
    vis: Set<u32>,
) -> (NodeV, Set<u32>)
    decreases 0x1_0000_0000 - vis.len(), 3int, 0int,
{
    let r = tail_stmts(bs, m, ls, blk, vis);
    (single_or_block(r.0), r.1)
}

/// The statements of a block that heads no loop, and the visited set after
/// them: those of its instructions, then what its last instruction leads to
/// (an `if` over both targets of a branch, the statements of a jump's
/// target, a `return` or `throw`, or the statements of its unvisited
/// successors).
pub open spec fn tail_stmts(
    bs: Seq<BasicBlockView>,
    m: Map<u32, usize>,
    ls: Seq<LoopInfoView>,
    blk: BasicBlockView,
    vis: Set<u32>,
) -> (Seq<NodeV>, Set<u32>)
    decreases 0x1_0000_0000 - vis.len(), 2int, 0int,
{
    let base = instr_stmts(blk.instructions, blk.instructions.len() as int);
    let n = blk.instructions.len();
    if n == 0 {
        (base, vis)
    } else {
        match blk.instructions[n - 1] {
            IRView::Branch { condition, true_target, false_target } =>
                branch_stmts(bs, m, ls, base, condition, true_target, false_target, vis),
            IRView::Jump(t) => {
                let rj = structured(bs, m, ls, t, vis);
                (flatten(base, rj.0), rj.1)
            },
            IRView::Return(v) => (base.push(NodeV::Return(match v {
                Some(x) => Some(operand_v(x)),
                None => None,
            })), vis),
            IRView::Throw(v) => (base.push(NodeV::Throw(operand_v(v))), vis),
            _ => structured_succs(bs, m, ls, blk.successors, 0, vis, base),
        }
    }
}

/// After the statements `base`, the `if` of a branch: the statements of its
/// true target, and those of its false target unless visited by then.
pub open spec fn branch_stmts(
    bs: Seq<BasicBlockView>,
    m: Map<u32, usize>,
    ls: Seq<LoopInfoView>,
    base: Seq<NodeV>,
    c: ConditionView,
    t: u32,
    f: u32,
    vis: Set<u32>,
) -> (Seq<NodeV>, Set<u32>)
    decreases 0x1_0000_0000 - vis.len(), 1int, 0int,
{
    let rt = structured(bs, m, ls, t, vis);
    let v2 = grown(vis, rt.1);
    proof {
        if rt.1.finite() && vis.subset_of(rt.1) {
            vstd::set_lib::lemma_len_subset(vis, rt.1);
        }
    }
    if v2.contains(f) {
        (base.push(NodeV::If { condition: condition_v(c), then_body: Box::new(rt.0), else_body: None }), v2)
    } else {
        let rf = structured(bs, m, ls, f, v2);
        (base.push(NodeV::If {
            condition: condition_v(c),
            then_body: Box::new(rt.0),
            else_body: Some(Box::new(rf.0)),
        }), rf.1)
    }
}

/// Structuring the blocks of a loop's body from position `i` on, after the
/// statements `acc`: the header of a `while` loop and visited blocks are
/// skipped.
pub open spec fn structured_body(
    bs: Seq<BasicBlockView>,
    m: Map<u32, usize>,
    ls: Seq<LoopInfoView>,
    li: LoopInfoView,
    i: int,
    vis: Set<u32>,
    acc: Seq<NodeV>,
) -> (Seq<NodeV>, Set<u32>)
    decreases 0x1_0000_0000 - vis.len(), 1int, li.body.len() - i,
{
    if i < 0 || i >= li.body.len() {
        (acc, vis)
    } else {
        let bid = li.body[i];
        let skip = li.kind == LoopKind::While && bid == li.header;
        if skip || vis.contains(bid) {
            structured_body(bs, m, ls, li, i + 1, vis, acc)
        } else {
            let r = structured(bs, m, ls, bid, vis);
            let v2 = grown(vis, r.1);
            proof {
                if r.1.finite() && vis.subset_of(r.1) {
                    vstd::set_lib::lemma_len_subset(vis, r.1);
                }
            }
            structured_body(bs, m, ls, li, i + 1, v2, acc.push(r.0))
        }
    }
}

/// Structuring the successors of a block from position `j` on, after the
/// statements `acc`: visited successors are skipped, and the statements of
/// each other one are appended.
pub open spec fn structured_succs(
    bs: Seq<BasicBlockView>,
    m: Map<u32, usize>,
    ls: Seq<LoopInfoView>,
    succs: Seq<u32>,
    j: int,
    vis: Set<u32>,
    acc: Seq<NodeV>,
) -> (Seq<NodeV>, Set<u32>)
    decreases 0x1_0000_0000 - vis.len(), 1int, succs.len() - j,
{
    if j < 0 || j >= succs.len() {
        (acc, vis)
    } else if vis.contains(succs[j]) {
        structured_succs(bs, m, ls, succs, j + 1, vis, acc)
    } else {
        let r = structured(bs, m, ls, succs[j], vis);
        let v2 = grown(vis, r.1);
        proof {
            if r.1.finite() && vis.subset_of(r.1) {
                vstd::set_lib::lemma_len_subset(vis, r.1);
            }
        }
        structured_succs(bs, m, ls, succs, j + 1, v2, flatten(acc, r.0))
    }
}

/// The models of a list of loops.
pub open spec fn loop_views(ls: Seq<super::loops::LoopInfo>) -> Seq<LoopInfoView> {
    ls.map_values(|l: super::loops::LoopInfo| l@)
}

/// The models of two lists of statements put together.
pub proof fn lemma_nodes_v_concat(a: Seq<AstNode>, b: Seq<AstNode>)
    ensures
        nodes_v(a + b, (a.len() + b.len()) as int) == nodes_v(a, a.len() as int) + nodes_v(b, b.len() as int),
{
    let ab = a + b;
    super::ast_view::lemma_nodes_v_len(ab, ab.len() as int);
    super::ast_view::lemma_nodes_v_len(a, a.len() as int);
    super::ast_view::lemma_nodes_v_len(b, b.len() as int);
    assert forall|j: int| 0 <= j < ab.len() implies #[trigger] nodes_v(ab, ab.len() as int)[j]
        == (nodes_v(a, a.len() as int) + nodes_v(b, b.len() as int))[j] by {
        super::ast_view::lemma_nodes_v_index(ab, ab.len() as int, j);
        if j < a.len() {
            super::ast_view::lemma_nodes_v_index(a, a.len() as int, j);
        } else {
            super::ast_view::lemma_nodes_v_index(b, b.len() as int, j - a.len());
        }
    }
    assert(nodes_v(ab, ab.len() as int) =~= nodes_v(a, a.len() as int) + nodes_v(b, b.len() as int));
}

} // verus!
