//! Recovery of Dart's cascade operator (`..`).
//!
//! AOT code writes `object..method1()..method2()` as a variable assigned
//! once and then used as the receiver of successive calls whose results
//! are dropped. Two or more such calls right after the assignment become
//! one cascade again.

use vstd::prelude::*;
use crate::graph::ast::{AstNode, AstExpr, BinOp, CatchClause};
use crate::graph::ast_view::{
    NodeV, ExprV, CatchV, node_v, expr_v, exprs_v, catches_v, opt_node_v, stmts_v, copy_node, copy_expr, copy_exprs,
    copy_opt_string, copy_strings, strs_v, lemma_nodes_v_index, lemma_nodes_v_len, lemma_nodes_v_push,
    lemma_catches_v_index, lemma_catches_v_len, lemma_catches_v_push, lemma_exprs_v_push, lemma_exprs_v_len,
};
use crate::text::str_eq;

verus! {

/// The variable a declaration with a value assigns, and that value.
pub open spec fn assigned_v(n: NodeV) -> Option<(Seq<char>, ExprV)> {
    match n {
        NodeV::VarDecl { name, value: Some(v), .. } => Some((name, v)),
        _ => None,
    }
}

/// The cascade section a statement makes on `target`: a call
/// `target.m(args)` without its receiver, or an assignment
/// `target.f = v` with an empty receiver.
pub open spec fn call_on_v(n: NodeV, target: Seq<char>) -> Option<ExprV> {
    match n {
        NodeV::ExprStatement(ExprV::MethodCall { receiver: Some(recv), method, args, type_args }) =>
            if *recv == ExprV::Variable(target) {
                Some(ExprV::MethodCall { receiver: None, method, args, type_args })
            } else {
                None
            },
        NodeV::ExprStatement(ExprV::BinaryOp(lhs, op, rhs)) => if op == BinOp::Assign {
            match *lhs {
                ExprV::FieldAccess(base, field) => if *base == ExprV::Variable(target) {
                    Some(ExprV::BinaryOp(
                        Box::new(ExprV::FieldAccess(Box::new(ExprV::Variable(Seq::empty())), field)),
                        BinOp::Assign,
                        rhs,
                    ))
                } else {
                    None
                },
                _ => None,
            }
        } else {
            None
        },
        _ => None,
    }
}

/// The cascade sections of the consecutive statements from the `j`-th on
/// that act on `target`.
pub open spec fn calls_run(s: Seq<NodeV>, j: int, target: Seq<char>) -> Seq<ExprV>
    decreases s.len() - j,
{
    if j < 0 || j >= s.len() {
        Seq::empty()
    } else {
        match call_on_v(s[j], target) {
            Some(c) => seq![c] + calls_run(s, j + 1, target),
            None => Seq::empty(),
        }
    }
}

/// `final name = base..c1..c2...;`
pub open spec fn cascade_decl_v(name: Seq<char>, base: ExprV, calls: Seq<ExprV>) -> NodeV {
    NodeV::VarDecl {
        name,
        dart_type: None,
        value: Some(ExprV::Cascade(Box::new(base), calls)),
        is_final: true,
        is_late: false,
    }
}

/// The statements from the `i`-th on with each assignment followed by two
/// or more sections on its variable merged into one cascade.
pub open spec fn merge_from(s: Seq<NodeV>, i: int) -> Seq<NodeV>
    decreases s.len() - i,
{
    if i < 0 || i >= s.len() {
        Seq::empty()
    } else {
        match assigned_v(s[i]) {
            Some((name, base)) => {
                let calls = calls_run(s, i + 1, name);
                if calls.len() >= 2 {
                    proof {
                        lemma_calls_run_len(s, i + 1, name);
                    }
                    seq![cascade_decl_v(name, base, calls)] + merge_from(s, i + 1 + calls.len())
                } else {
                    seq![s[i]] + merge_from(s, i + 1)
                }
            },
            None => seq![s[i]] + merge_from(s, i + 1),
        }
    }
}

/// A run of sections is no longer than the statements left.
pub proof fn lemma_calls_run_len(s: Seq<NodeV>, j: int, target: Seq<char>)
    requires
        0 <= j,
    ensures
        j + calls_run(s, j, target).len() <= if j <= s.len() { s.len() as int } else { j },
    decreases s.len() - j,
{
    if j < s.len() {
        if call_on_v(s[j], target) is Some {
            lemma_calls_run_len(s, j + 1, target);
        }
    }
}

/// A statement with its cascades recovered, inside out; `switch`
/// statements are left as they are.
pub open spec fn casc_v(n: NodeV) -> NodeV
    decreases n, 1int,
{
    match n {
        NodeV::Block(s) => NodeV::Block(merge_from(casc_stmts(s, s.len() as int), 0)),
        NodeV::If { condition, then_body, else_body } => NodeV::If {
            condition,
            then_body: Box::new(casc_v(*then_body)),
            else_body: casc_opt(else_body),
        },
        NodeV::While { condition, body } => NodeV::While { condition, body: Box::new(casc_v(*body)) },
        NodeV::DoWhile { body, condition } => NodeV::DoWhile { body: Box::new(casc_v(*body)), condition },
        NodeV::For { init, condition, update, body } => NodeV::For { init, condition, update, body: Box::new(casc_v(*body)) },
        NodeV::TryCatch { try_body, catches, finally_body } => NodeV::TryCatch {
            try_body: Box::new(casc_v(*try_body)),
            catches: casc_catches(catches, catches.len() as int),
            finally_body: casc_opt(finally_body),
        },
        _ => n,
    }
}

/// An optional statement, with its cascades recovered.
pub open spec fn casc_opt(o: Option<Box<NodeV>>) -> Option<Box<NodeV>>
    decreases o, 0int,
{
    match o {
        Some(b) => Some(Box::new(casc_v(*b))),
        None => None,
    }
}

/// The first `k` statements of a block, each with its cascades recovered.
pub open spec fn casc_stmts(s: Seq<NodeV>, k: int) -> Seq<NodeV>
    decreases s, k,
{
    if k <= 0 || k > s.len() { Seq::empty() } else { casc_stmts(s, k - 1).push(casc_v(s[k - 1])) }
}

/// The first `k` `catch` clauses, with the cascades of their bodies
/// recovered.
pub open spec fn casc_catches(s: Seq<CatchV>, k: int) -> Seq<CatchV>
    decreases s, k,
{
    if k <= 0 || k > s.len() {
        Seq::empty()
    } else {
        casc_catches(s, k - 1).push(CatchV { body: casc_v(s[k - 1].body), ..s[k - 1] })
    }
}

} // verus!

verus! {

/// The cascade section a statement makes on `target_var`, if any.
fn extract_method_call_on(node: &AstNode, target_var: &str) -> (r: Option<AstExpr>)
    ensures
        match call_on_v(node_v(*node), target_var@) {
            Some(c) => r matches Some(e) && expr_v(e) == c,
            None => r is None,
        },
{
    match node {
        AstNode::ExprStatement(e) => {
            assert(node_v(*node) == NodeV::ExprStatement(expr_v(*e)));
            match e {
                AstExpr::MethodCall { receiver, method, args, type_args } => {
                    assert(expr_v(*e) matches ExprV::MethodCall { receiver: rv, method: m, args: a, type_args: t }
                        && m == method@ && a == exprs_v(args@, args@.len() as int) && t == strs_v(type_args@)
                        && rv == match receiver {
                            Some(x) => Some(Box::new(expr_v(**x))),
                            None => None::<Box<ExprV>>,
                        });
                    match receiver {
                        Some(recv) => match &**recv {
                            AstExpr::Variable(name) => {
                                assert(expr_v(**recv) == ExprV::Variable(name@));
                                if str_eq(name.as_str(), target_var) {
                                    let c = AstExpr::MethodCall {
                                        receiver: None,
                                        method: method.clone(),
                                        args: copy_exprs(args),
                                        type_args: copy_strings(type_args),
                                    };
                                    proof {
                                        lemma_exprs_v_len(args@, args@.len() as int);
                                    }
                                    assert(expr_v(c) == ExprV::MethodCall {
                                        receiver: None,
                                        method: method@,
                                        args: exprs_v(args@, args@.len() as int),
                                        type_args: strs_v(type_args@),
                                    });
                                    Some(c)
                                } else {
                                    None
                                }
                            },
                            _ => {
                                assert(!(expr_v(**recv) is Variable));
                                None
                            },
                        },
                        None => None,
                    }
                },
                AstExpr::BinaryOp(lhs, op, rhs) => {
                    assert(expr_v(*e) == ExprV::BinaryOp(Box::new(expr_v(**lhs)), *op, Box::new(expr_v(**rhs))));
                    if *op != BinOp::Assign {
                        return None;
                    }
                    match &**lhs {
                        AstExpr::FieldAccess(base, field) => {
                            assert(expr_v(**lhs) == ExprV::FieldAccess(Box::new(expr_v(**base)), field@));
                            match &**base {
                                AstExpr::Variable(name) => {
                                    assert(expr_v(**base) == ExprV::Variable(name@));
                                    if str_eq(name.as_str(), target_var) {
                                        let empty = AstExpr::Variable(String::new());
                                        let fa = AstExpr::FieldAccess(Box::new(empty), field.clone());
                                        let c = AstExpr::BinaryOp(Box::new(fa), BinOp::Assign, Box::new(copy_expr(&**rhs)));
                                        assert(expr_v(empty) == ExprV::Variable(Seq::empty()));
                                        assert(expr_v(fa) == ExprV::FieldAccess(Box::new(ExprV::Variable(Seq::empty())), field@));
                                        Some(c)
                                    } else {
                                        None
                                    }
                                },
                                _ => {
                                    assert(!(expr_v(**base) is Variable));
                                    None
                                },
                            }
                        },
                        _ => {
                            assert(!(expr_v(**lhs) is FieldAccess));
                            None
                        },
                    }
                },
                _ => {
                    assert(!(expr_v(*e) is MethodCall) && !(expr_v(*e) is BinaryOp));
                    None
                },
            }
        },
        _ => None,
    }
}

/// The variable a declaration with a value assigns, and a copy of that
/// value.
fn get_assigned(node: &AstNode) -> (r: Option<(String, AstExpr)>)
    ensures
        match assigned_v(node_v(*node)) {
            Some((n, v)) => r matches Some(x) && x.0@ == n && expr_v(x.1) == v,
            None => r is None,
        },
{
    match node {
        AstNode::VarDecl { name, value, .. } => {
            assert(node_v(*node) matches NodeV::VarDecl { name: nm, value: vv, .. } && nm == name@
                && vv == crate::graph::ast_view::opt_expr_v(*value));
            match value {
                Some(v) => {
                    assert(crate::graph::ast_view::opt_expr_v(*value) == Some(expr_v(*v)));
                    Some((name.clone(), copy_expr(v)))
                },
                None => None,
            }
        },
        _ => None,
    }
}

/// A block's statements with each assignment followed by two or more
/// sections on its variable merged into one cascade.
fn merge_cascades(w: &Vec<AstNode>) -> (r: Vec<AstNode>)
    ensures
        stmts_v(r@) == merge_from(stmts_v(w@), 0),
{
    let ghost wv = stmts_v(w@);
    proof {
        lemma_nodes_v_len(w@, w@.len() as int);
    }
    let mut out: Vec<AstNode> = Vec::new();
    let mut i: usize = 0;
    assert(stmts_v(out@) =~= Seq::<NodeV>::empty());
    while i < w.len()
        invariant
            i <= w@.len(),
            wv == stmts_v(w@),
            wv.len() == w@.len(),
            stmts_v(out@) + merge_from(wv, i as int) == merge_from(wv, 0),
        decreases w@.len() - i,
    {
        proof {
            lemma_nodes_v_index(w@, w@.len() as int, i as int);
        }
        let ghost before = out@;
        match get_assigned(&w[i]) {
            Some((var_name, base)) => {
                let mut calls: Vec<AstExpr> = Vec::new();
                let mut j: usize = i + 1;
                assert(exprs_v(calls@, 0) =~= Seq::<ExprV>::empty());
                loop
                    invariant_except_break
                        i < j <= w@.len(),
                        wv == stmts_v(w@),
                        wv.len() == w@.len(),
                        calls@.len() == j - i - 1,
                        exprs_v(calls@, calls@.len() as int) + calls_run(wv, j as int, var_name@) == calls_run(wv, i + 1, var_name@),
                    ensures
                        i < j <= w@.len(),
                        calls@.len() == j - i - 1,
                        exprs_v(calls@, calls@.len() as int) == calls_run(wv, i + 1, var_name@),
                    decreases w@.len() - j,
                {
                    if j >= w.len() {
                        assert(exprs_v(calls@, calls@.len() as int) =~= calls_run(wv, i + 1, var_name@));
                        break;
                    }
                    proof {
                        lemma_nodes_v_index(w@, w@.len() as int, j as int);
                    }
                    match extract_method_call_on(&w[j], var_name.as_str()) {
                        Some(c) => {
                            let ghost prev = calls@;
                            calls.push(c);
                            proof {
                                lemma_exprs_v_push(prev, c);
                            }
                            assert(exprs_v(calls@, calls@.len() as int) + calls_run(wv, j + 1, var_name@)
                                =~= exprs_v(prev, prev.len() as int) + calls_run(wv, j as int, var_name@));
                            j = j + 1;
                        },
                        None => {
                            assert(exprs_v(calls@, calls@.len() as int) =~= calls_run(wv, i + 1, var_name@));
                            break;
                        },
                    }
                }
                proof {
                    lemma_exprs_v_len(calls@, calls@.len() as int);
                }
                if calls.len() >= 2 {
                    let cascade = AstExpr::Cascade(Box::new(base), calls);
                    let decl = AstNode::VarDecl {
                        name: var_name,
                        dart_type: None,
                        value: Some(cascade),
                        is_final: true,
                        is_late: false,
                    };
                    assert(crate::graph::ast_view::opt_expr_v(Some(cascade)) == Some(expr_v(cascade)));
                    assert(node_v(decl) == cascade_decl_v(var_name@, expr_v(base), calls_run(wv, i + 1, var_name@)));
                    out.push(decl);
                    proof {
                        lemma_nodes_v_push(before, decl);
                    }
                    assert(stmts_v(out@) + merge_from(wv, j as int) =~= stmts_v(before) + merge_from(wv, i as int));
                    i = j;
                } else {
                    let c = copy_node(&w[i]);
                    out.push(c);
                    proof {
                        lemma_nodes_v_push(before, c);
                    }
                    assert(stmts_v(out@) + merge_from(wv, i + 1) =~= stmts_v(before) + merge_from(wv, i as int));
                    i = i + 1;
                }
            },
            None => {
                let c = copy_node(&w[i]);
                out.push(c);
                proof {
                    lemma_nodes_v_push(before, c);
                }
                assert(stmts_v(out@) + merge_from(wv, i + 1) =~= stmts_v(before) + merge_from(wv, i as int));
                i = i + 1;
            },
        }
    }
    assert(stmts_v(out@) =~= merge_from(wv, 0));
    out
}

/// The statements of a block, each with its cascades recovered.
fn walk_stmts(v: &Vec<AstNode>) -> (r: Vec<AstNode>)
    ensures
        stmts_v(r@) == casc_stmts(stmts_v(v@), v@.len() as int),
    decreases v@, 2int,
{
    let ghost sv = stmts_v(v@);
    proof {
        lemma_nodes_v_len(v@, v@.len() as int);
    }
    let mut out: Vec<AstNode> = Vec::new();
    let mut i: usize = 0;
    assert(stmts_v(out@) =~= Seq::<NodeV>::empty());
    while i < v.len()
        invariant
            i <= v@.len(),
            sv == stmts_v(v@),
            sv.len() == v@.len(),
            stmts_v(out@) == casc_stmts(sv, i as int),
        decreases v@.len() - i,
    {
        proof {
            lemma_nodes_v_index(v@, v@.len() as int, i as int);
        }
        let z = walk_cascade(&v[i]);
        let ghost before = out@;
        out.push(z);
        proof {
            lemma_nodes_v_push(before, z);
        }
        i = i + 1;
    }
    out
}

/// The `catch` clauses of a `try`, with the cascades of their bodies
/// recovered.
fn walk_catches(v: &Vec<CatchClause>) -> (r: Vec<CatchClause>)
    ensures
        catches_v(r@, r@.len() as int) == casc_catches(catches_v(v@, v@.len() as int), v@.len() as int),
    decreases v@, 2int,
{
    let ghost cv = catches_v(v@, v@.len() as int);
    proof {
        lemma_catches_v_len(v@, v@.len() as int);
    }
    let mut out: Vec<CatchClause> = Vec::new();
    let mut i: usize = 0;
    assert(catches_v(out@, 0) =~= Seq::<CatchV>::empty());
    while i < v.len()
        invariant
            i <= v@.len(),
            cv == catches_v(v@, v@.len() as int),
            cv.len() == v@.len(),
            out@.len() == i,
            catches_v(out@, out@.len() as int) == casc_catches(cv, i as int),
        decreases v@.len() - i,
    {
        proof {
            lemma_catches_v_index(v@, v@.len() as int, i as int);
        }
        let c = &v[i];
        let entry = CatchClause {
            exception_type: copy_opt_string(&c.exception_type),
            exception_var: c.exception_var.clone(),
            stack_trace_var: copy_opt_string(&c.stack_trace_var),
            body: walk_cascade(&c.body),
        };
        let ghost before = out@;
        out.push(entry);
        proof {
            lemma_catches_v_push(before, entry);
        }
        i = i + 1;
    }
    out
}

/// An optional statement, with its cascades recovered.
fn walk_opt(o: &Option<Box<AstNode>>) -> (r: Option<Box<AstNode>>)
    ensures
        opt_node_v(r) == casc_opt(opt_node_v(*o)),
    decreases *o, 2int,
{
    match o {
        Some(b) => Some(Box::new(walk_cascade(&**b))),
        None => None,
    }
}

/// A statement with its cascades recovered, inside out.
#[verifier::rlimit(50)]
fn walk_cascade(n: &AstNode) -> (r: AstNode)
    ensures
        node_v(r) == casc_v(node_v(*n)),
    decreases *n, 1int,
{
    match n {
        AstNode::Block(stmts) => {
            proof {
                lemma_nodes_v_len(stmts@, stmts@.len() as int);
            }
            assert(node_v(*n) == NodeV::Block(stmts_v(stmts@)));
            let walked = walk_stmts(stmts);
            let out = merge_cascades(&walked);
            let r = AstNode::Block(out);
            assert(node_v(r) == NodeV::Block(stmts_v(out@)));
            r
        },
        AstNode::If { condition, then_body, else_body } => AstNode::If {
            condition: copy_expr(condition),
            then_body: Box::new(walk_cascade(&**then_body)),
            else_body: walk_opt(else_body),
        },
        AstNode::While { condition, body } => AstNode::While {
            condition: copy_expr(condition),
            body: Box::new(walk_cascade(&**body)),
        },
        AstNode::DoWhile { body, condition } => AstNode::DoWhile {
            body: Box::new(walk_cascade(&**body)),
            condition: copy_expr(condition),
        },
        AstNode::For { init, condition, update, body } => AstNode::For {
            init: Box::new(copy_node(&**init)),
            condition: copy_expr(condition),
            update: Box::new(copy_node(&**update)),
            body: Box::new(walk_cascade(&**body)),
        },
        AstNode::TryCatch { try_body, catches, finally_body } => {
            proof {
                lemma_catches_v_len(catches@, catches@.len() as int);
            }
            AstNode::TryCatch {
                try_body: Box::new(walk_cascade(&**try_body)),
                catches: walk_catches(catches),
                finally_body: walk_opt(finally_body),
            }
        },
        _ => {
            assert(casc_v(node_v(*n)) == node_v(*n));
            copy_node(n)
        },
    }
}

/// Recover cascade operator (`..`) patterns: in every block, an assignment
/// followed by two or more calls or field assignments on its variable
/// becomes one cascade.
pub fn recover_cascade(ast: &mut AstNode)
    ensures
        node_v(*final(ast)) == casc_v(node_v(*old(ast))),
{
    let r = walk_cascade(ast);
    *ast = r;
}

} // verus!
