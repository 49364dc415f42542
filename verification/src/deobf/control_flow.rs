//! Removal of control-flow flattening, opaque predicates and dead code.
//!
//! Flattening turns structured code into a dispatcher loop:
//! `while (true) { switch (state) { case 0: ...; state = 3; break; ... } }`.
//! The cases are put back in the order the state assignments chain them,
//! starting from state 0.

use vstd::prelude::*;
use std::collections::HashSet;
use crate::graph::ast::{AstNode, AstExpr, BinOp, CatchClause, DartLiteral};
use crate::graph::ast_view::{
    NodeV, ExprV, LitV, CatchV, node_v, expr_v, nodes_v, cases_v, catches_v, catch_v, opt_node_v, stmts_v,
    copy_node, copy_expr, copy_cases, copy_opt_node, lemma_nodes_v_index, lemma_nodes_v_len, lemma_nodes_v_push,
    lemma_cases_v_index, lemma_cases_v_len, lemma_cases_v_push, lemma_catches_v_index, lemma_catches_v_len,
    lemma_catches_v_push,
};
use crate::text::{contains_seq, str_contains, str_eq};

verus! {

broadcast use vstd::std_specs::hash::group_hash_axioms;

/// `true` or `1`.
pub open spec fn is_always_true_v(e: ExprV) -> bool {
    e == ExprV::Literal(LitV::Bool(true)) || e == ExprV::Literal(LitV::Int(1))
}

/// A variable whose name says it holds the dispatcher's state.
pub open spec fn is_state_var_v(e: ExprV) -> bool {
    match e {
        ExprV::Variable(n) => contains_seq(n, "state"@) || contains_seq(n, "_state"@) || contains_seq(n, "dispatcher"@)
            || n == "s"@,
        _ => false,
    }
}

/// The state a statement `state = N;` sets.
pub open spec fn state_assignment_v(n: NodeV) -> Option<i64> {
    match n {
        NodeV::ExprStatement(ExprV::BinaryOp(lhs, op, rhs)) => if op == BinOp::Assign && is_state_var_v(*lhs) {
            match *rhs {
                ExprV::Literal(LitV::Int(k)) => Some(k),
                _ => None,
            }
        } else {
            None
        },
        _ => None,
    }
}

/// The state the last state assignment among the first `k` statements sets.
pub open spec fn last_state(s: Seq<NodeV>, k: int) -> Option<i64>
    decreases k,
{
    if k <= 0 || k > s.len() {
        None
    } else {
        match state_assignment_v(s[k - 1]) {
            Some(x) => Some(x),
            None => last_state(s, k - 1),
        }
    }
}

/// The state a case body moves to.
pub open spec fn next_state_v(body: NodeV) -> Option<i64> {
    match body {
        NodeV::Block(s) => last_state(s, s.len() as int),
        _ => state_assignment_v(body),
    }
}

/// A statement that assigns the state variable.
pub open spec fn is_state_change_v(n: NodeV) -> bool {
    match n {
        NodeV::ExprStatement(ExprV::BinaryOp(lhs, op, _)) => op == BinOp::Assign && is_state_var_v(*lhs),
        _ => false,
    }
}

/// A statement kept when a case body is put back: neither a state
/// assignment nor a `break`.
pub open spec fn kept_in_case(n: NodeV) -> bool {
    !is_state_change_v(n) && !(n is Break)
}

/// The statements among the first `k` that a case keeps.
pub open spec fn kept_stmts(s: Seq<NodeV>, k: int) -> Seq<NodeV>
    decreases k,
{
    if k <= 0 || k > s.len() {
        Seq::empty()
    } else {
        kept_stmts(s, k - 1) + if kept_in_case(s[k - 1]) { seq![s[k - 1]] } else { Seq::empty() }
    }
}

/// A case body without its state assignments and `break`s.
pub open spec fn strip_v(body: NodeV) -> NodeV {
    match body {
        NodeV::Block(s) => NodeV::Block(kept_stmts(s, s.len() as int)),
        _ => body,
    }
}

/// The state a case handles, where its label is an integer literal.
pub open spec fn case_id_v(c: (ExprV, NodeV)) -> Option<i64> {
    match c.0 {
        ExprV::Literal(LitV::Int(n)) => Some(n),
        _ => None,
    }
}

/// The first case from the `j`-th on that handles state `id`.
pub open spec fn find_case_v(cases: Seq<(ExprV, NodeV)>, id: i64, j: int) -> Option<int>
    decreases cases.len() - j,
{
    if j < 0 || j >= cases.len() {
        None
    } else if case_id_v(cases[j]) == Some(id) {
        Some(j)
    } else {
        find_case_v(cases, id, j + 1)
    }
}

/// The number of cases among the first `k` whose state is not visited.
pub open spec fn unvisited(cases: Seq<(ExprV, NodeV)>, visited: Set<i64>, k: int) -> nat
    decreases k,
{
    if k <= 0 || k > cases.len() {
        0
    } else {
        unvisited(cases, visited, k - 1) + match case_id_v(cases[k - 1]) {
            Some(id) => if visited.contains(id) { 0nat } else { 1nat },
            None => 0nat,
        }
    }
}

/// Visiting more states leaves no more cases unvisited.
pub proof fn lemma_unvisited_monotone(cases: Seq<(ExprV, NodeV)>, visited: Set<i64>, x: i64, k: int)
    ensures
        unvisited(cases, visited.insert(x), k) <= unvisited(cases, visited, k),
    decreases k,
{
    if k > 0 && k <= cases.len() {
        lemma_unvisited_monotone(cases, visited, x, k - 1);
    }
}

/// Visiting the state of a case not yet visited leaves fewer cases
/// unvisited.
pub proof fn lemma_unvisited_drops(cases: Seq<(ExprV, NodeV)>, visited: Set<i64>, x: i64, j: int, k: int)
    requires
        0 <= j < k <= cases.len(),
        case_id_v(cases[j]) == Some(x),
        !visited.contains(x),
    ensures
        unvisited(cases, visited.insert(x), k) < unvisited(cases, visited, k),
    decreases k,
{
    if j < k - 1 {
        lemma_unvisited_drops(cases, visited, x, j, k - 1);
    } else {
        lemma_unvisited_monotone(cases, visited, x, k - 1);
    }
}

/// The case found for a state handles that state.
pub proof fn lemma_find_case(cases: Seq<(ExprV, NodeV)>, id: i64, j: int)
    ensures
        find_case_v(cases, id, j) matches Some(i) ==> j <= i < cases.len() && case_id_v(cases[i]) == Some(id),
    decreases cases.len() - j,
{
    if j >= 0 && j < cases.len() && case_id_v(cases[j]) != Some(id) {
        lemma_find_case(cases, id, j + 1);
    }
}

/// The case bodies in the order the states chain them from `cur`: each
/// state's first case, stripped, until a state repeats, has no case, or
/// its case sets no next state.
pub open spec fn chain_v(cases: Seq<(ExprV, NodeV)>, cur: i64, visited: Set<i64>) -> Seq<NodeV>
    decreases unvisited(cases, visited, cases.len() as int),
{
    if visited.contains(cur) {
        Seq::empty()
    } else {
        match find_case_v(cases, cur, 0) {
            None => Seq::empty(),
            Some(j) => {
                let body = cases[j].1;
                seq![strip_v(body)] + match next_state_v(body) {
                    Some(n) => {
                        proof {
                            lemma_find_case(cases, cur, 0);
                            lemma_unvisited_drops(cases, visited, cur, j, cases.len() as int);
                        }
                        chain_v(cases, n, visited.insert(cur))
                    },
                    None => Seq::empty(),
                }
            },
        }
    }
}

/// The code a state machine stands for: its cases chained from state 0.
pub open spec fn state_machine_v(cases: Seq<(ExprV, NodeV)>) -> NodeV {
    NodeV::Block(chain_v(cases, 0, Set::empty()))
}

/// The code a flattened loop stands for: a `while (true)` whose body is a
/// `switch` on a state variable, alone or as the only statement of a block.
pub open spec fn recover_v(n: NodeV) -> Option<NodeV> {
    match n {
        NodeV::While { condition, body } => if is_always_true_v(condition) {
            match *body {
                NodeV::Block(inner) => if inner.len() == 1 && (inner[0] matches NodeV::Switch { subject, .. } && is_state_var_v(subject)) {
                    Some(state_machine_v(inner[0]->cases))
                } else {
                    None
                },
                NodeV::Switch { subject, cases, .. } => if is_state_var_v(subject) {
                    Some(state_machine_v(cases))
                } else {
                    None
                },
                _ => None,
            }
        } else {
            None
        },
        _ => None,
    }
}

/// `true`, or `x >= 0`.
pub open spec fn is_tautology_v(e: ExprV) -> bool {
    match e {
        ExprV::Literal(LitV::Bool(b)) => b,
        ExprV::BinaryOp(_, op, rhs) => op == BinOp::GreaterOrEqual && *rhs == ExprV::Literal(LitV::Int(0)),
        _ => false,
    }
}

/// `false`, or `x < 0`.
pub open spec fn is_contradiction_v(e: ExprV) -> bool {
    match e {
        ExprV::Literal(LitV::Bool(b)) => !b,
        ExprV::BinaryOp(_, op, rhs) => op == BinOp::LessThan && *rhs == ExprV::Literal(LitV::Int(0)),
        _ => false,
    }
}

/// An `if` on an opaque predicate replaced by the branch always taken.
pub open spec fn opaque_v(n: NodeV) -> Option<NodeV> {
    match n {
        NodeV::If { condition, then_body, else_body } => if is_tautology_v(condition) {
            Some(*then_body)
        } else if is_contradiction_v(condition) && else_body is Some {
            Some(*else_body->Some_0)
        } else {
            None
        },
        _ => None,
    }
}

/// A statement with flattening recovered, then an opaque predicate removed.
pub open spec fn simplify_v(x: NodeV) -> NodeV {
    let y = match recover_v(x) {
        Some(r) => r,
        None => x,
    };
    match opaque_v(y) {
        Some(z) => z,
        None => y,
    }
}

/// A `return` or `throw`.
pub open spec fn is_exit_v(n: NodeV) -> bool {
    n is Return || n is Throw
}

/// The position of the first `return` or `throw` from the `j`-th on.
pub open spec fn first_exit(s: Seq<NodeV>, j: int) -> Option<int>
    decreases s.len() - j,
{
    if j < 0 || j >= s.len() {
        None
    } else if is_exit_v(s[j]) {
        Some(j)
    } else {
        first_exit(s, j + 1)
    }
}

/// The statements up to the first `return` or `throw`.
pub open spec fn dead_cut_v(s: Seq<NodeV>) -> Seq<NodeV> {
    match first_exit(s, 0) {
        Some(i) => s.take(i + 1),
        None => s,
    }
}

/// A statement with the flattening, opaque predicates and dead code of its
/// blocks removed, inside out.
pub open spec fn cf_v(n: NodeV) -> NodeV
    decreases n, 1int,
{
    match n {
        NodeV::Block(s) => NodeV::Block(dead_cut_v(cf_stmts(s, s.len() as int))),
        NodeV::If { condition, then_body, else_body } => NodeV::If {
            condition,
            then_body: Box::new(cf_v(*then_body)),
            else_body: cf_opt(else_body),
        },
        NodeV::While { condition, body } => NodeV::While { condition, body: Box::new(cf_v(*body)) },
        NodeV::DoWhile { body, condition } => NodeV::DoWhile { body: Box::new(cf_v(*body)), condition },
        NodeV::For { init, condition, update, body } => NodeV::For { init, condition, update, body: Box::new(cf_v(*body)) },
        NodeV::TryCatch { try_body, catches, finally_body } => NodeV::TryCatch {
            try_body: Box::new(cf_v(*try_body)),
            catches: cf_catches(catches, catches.len() as int),
            finally_body: cf_opt(finally_body),
        },
        NodeV::Switch { subject, cases, default } => NodeV::Switch {
            subject,
            cases: cf_cases(cases, cases.len() as int),
            default: cf_opt(default),
        },
        _ => n,
    }
}

/// An optional statement, cleaned.
pub open spec fn cf_opt(o: Option<Box<NodeV>>) -> Option<Box<NodeV>>
    decreases o, 0int,
{
    match o {
        Some(b) => Some(Box::new(cf_v(*b))),
        None => None,
    }
}

/// The first `k` statements of a block, each cleaned and simplified.
pub open spec fn cf_stmts(s: Seq<NodeV>, k: int) -> Seq<NodeV>
    decreases s, k,
{
    if k <= 0 || k > s.len() { Seq::empty() } else { cf_stmts(s, k - 1).push(simplify_v(cf_v(s[k - 1]))) }
}

/// The first `k` cases of a `switch`, their bodies cleaned.
pub open spec fn cf_cases(s: Seq<(ExprV, NodeV)>, k: int) -> Seq<(ExprV, NodeV)>
    decreases s, k,
{
    if k <= 0 || k > s.len() { Seq::empty() } else { cf_cases(s, k - 1).push((s[k - 1].0, cf_v(s[k - 1].1))) }
}

/// The first `k` `catch` clauses, their bodies cleaned.
pub open spec fn cf_catches(s: Seq<CatchV>, k: int) -> Seq<CatchV>
    decreases s, k,
{
    if k <= 0 || k > s.len() {
        Seq::empty()
    } else {
        cf_catches(s, k - 1).push(CatchV { body: cf_v(s[k - 1].body), ..s[k - 1] })
    }
}

} // verus!

verus! {

/// Whether an expression is `true` or `1`.
fn is_always_true(e: &AstExpr) -> (r: bool)
    ensures
        r == is_always_true_v(expr_v(*e)),
{
    proof {
        reveal_with_fuel(node_v, 3);
        reveal_with_fuel(expr_v, 3);
        reveal_with_fuel(crate::graph::ast_view::opt_node_v, 2);
    }
    match e {
        AstExpr::Literal(DartLiteral::Bool(b)) => *b,
        AstExpr::Literal(DartLiteral::Int(v)) => *v == 1,
        _ => false,
    }
}

/// Whether an expression is a variable holding the dispatcher's state.
fn is_state_variable(e: &AstExpr) -> (r: bool)
    ensures
        r == is_state_var_v(expr_v(*e)),
{
    proof {
        reveal_with_fuel(node_v, 3);
        reveal_with_fuel(expr_v, 3);
        reveal_with_fuel(crate::graph::ast_view::opt_node_v, 2);
    }
    match e {
        AstExpr::Variable(name) => {
            str_contains(name.as_str(), "state") || str_contains(name.as_str(), "_state")
                || str_contains(name.as_str(), "dispatcher") || str_eq(name.as_str(), "s")
        },
        _ => false,
    }
}

/// The state a statement `state = N;` sets.
fn extract_state_assignment(n: &AstNode) -> (r: Option<i64>)
    ensures
        r == state_assignment_v(node_v(*n)),
{
    proof {
        reveal_with_fuel(node_v, 3);
        reveal_with_fuel(expr_v, 3);
        reveal_with_fuel(crate::graph::ast_view::opt_node_v, 2);
    }
    match n {
        AstNode::ExprStatement(AstExpr::BinaryOp(lhs, op, rhs)) => {
            if *op == BinOp::Assign && is_state_variable(lhs) {
                match &**rhs {
                    AstExpr::Literal(DartLiteral::Int(k)) => Some(*k),
                    _ => None,
                }
            } else {
                None
            }
        },
        _ => None,
    }
}

/// The state a case body moves to: that of its last state assignment.
fn extract_next_state(body: &AstNode) -> (r: Option<i64>)
    ensures
        r == next_state_v(node_v(*body)),
{
    match body {
        AstNode::Block(stmts) => {
            let ghost sv = stmts_v(stmts@);
            proof {
                lemma_nodes_v_len(stmts@, stmts@.len() as int);
            }
            assert(node_v(*body) == NodeV::Block(sv));
            assert(next_state_v(node_v(*body)) == last_state(sv, sv.len() as int));
            let mut k: usize = stmts.len();
            while k > 0
                invariant
                    k <= stmts@.len(),
                    sv == stmts_v(stmts@),
                    sv.len() == stmts@.len(),
                    next_state_v(node_v(*body)) == last_state(sv, sv.len() as int),
                    last_state(sv, sv.len() as int) == last_state(sv, k as int),
                decreases k,
            {
                proof {
                    lemma_nodes_v_index(stmts@, stmts@.len() as int, k - 1);
                }
                match extract_state_assignment(&stmts[k - 1]) {
                    Some(x) => {
                        assert(last_state(sv, k as int) == Some(x));
                        return Some(x);
                    },
                    None => {},
                }
                k = k - 1;
            }
            None
        },
        _ => extract_state_assignment(body),
    }
}

/// Whether a statement assigns the state variable.
fn is_state_change(n: &AstNode) -> (r: bool)
    ensures
        r == is_state_change_v(node_v(*n)),
{
    proof {
        reveal_with_fuel(node_v, 3);
        reveal_with_fuel(expr_v, 3);
        reveal_with_fuel(crate::graph::ast_view::opt_node_v, 2);
    }
    match n {
        AstNode::ExprStatement(AstExpr::BinaryOp(lhs, op, _)) => *op == BinOp::Assign && is_state_variable(lhs),
        _ => false,
    }
}

/// A case body without its state assignments and `break`s.
fn strip_state_assignment(body: &AstNode) -> (r: AstNode)
    ensures
        node_v(r) == strip_v(node_v(*body)),
{
    match body {
        AstNode::Block(stmts) => {
            let ghost sv = stmts_v(stmts@);
            proof {
                lemma_nodes_v_len(stmts@, stmts@.len() as int);
            }
            let mut out: Vec<AstNode> = Vec::new();
            let mut i: usize = 0;
            while i < stmts.len()
                invariant
                    i <= stmts@.len(),
                    sv == stmts_v(stmts@),
                    sv.len() == stmts@.len(),
                    stmts_v(out@) == kept_stmts(sv, i as int),
                decreases stmts@.len() - i,
            {
                proof {
                    lemma_nodes_v_index(stmts@, stmts@.len() as int, i as int);
                }
                let keep = !is_state_change(&stmts[i]) && !matches!(stmts[i], AstNode::Break);
                assert(keep == kept_in_case(sv[i as int]));
                let ghost before = out@;
                if keep {
                    let c = copy_node(&stmts[i]);
                    out.push(c);
                    proof {
                        lemma_nodes_v_push(before, c);
                    }
                    assert(stmts_v(out@) =~= kept_stmts(sv, i + 1));
                } else {
                    assert(stmts_v(out@) =~= kept_stmts(sv, i + 1));
                }
                i = i + 1;
            }
            AstNode::Block(out)
        },
        _ => copy_node(body),
    }
}

/// The first case that handles state `id`.
fn find_case(cases: &Vec<(AstExpr, AstNode)>, id: i64) -> (r: Option<usize>)
    ensures
        r matches Some(j) ==> find_case_v(cases_v(cases@, cases@.len() as int), id, 0) == Some(j as int),
        r is None ==> find_case_v(cases_v(cases@, cases@.len() as int), id, 0) is None,
{
    let ghost cv = cases_v(cases@, cases@.len() as int);
    proof {
        lemma_cases_v_len(cases@, cases@.len() as int);
    }
    let mut j: usize = 0;
    while j < cases.len()
        invariant
            j <= cases@.len(),
            cv == cases_v(cases@, cases@.len() as int),
            cv.len() == cases@.len(),
            find_case_v(cv, id, 0) == find_case_v(cv, id, j as int),
        decreases cases@.len() - j,
    {
        proof {
            lemma_cases_v_index(cases@, cases@.len() as int, j as int);
        }
        let hit = match &cases[j].0 {
            AstExpr::Literal(DartLiteral::Int(n)) => *n == id,
            _ => false,
        };
        if hit {
            return Some(j);
        }
        j = j + 1;
    }
    None
}

/// The code a state machine stands for: its cases in the order the state
/// assignments chain them from state 0.
fn recover_from_state_machine(cases: &Vec<(AstExpr, AstNode)>) -> (r: AstNode)
    ensures
        node_v(r) == state_machine_v(cases_v(cases@, cases@.len() as int)),
{
    let ghost cv = cases_v(cases@, cases@.len() as int);
    proof {
        lemma_cases_v_len(cases@, cases@.len() as int);
    }
    let mut ordered: Vec<AstNode> = Vec::new();
    let mut visited: HashSet<i64> = HashSet::new();
    let mut current: i64 = 0;
    assert(stmts_v(ordered@) =~= Seq::<NodeV>::empty());
    loop
        invariant_except_break
            cv == cases_v(cases@, cases@.len() as int),
            cv.len() == cases@.len(),
            stmts_v(ordered@) + chain_v(cv, current, visited@) == chain_v(cv, 0, Set::empty()),
        ensures
            stmts_v(ordered@) == chain_v(cv, 0, Set::empty()),
        decreases unvisited(cv, visited@, cv.len() as int),
    {
        if visited.contains(&current) {
            assert(stmts_v(ordered@) =~= chain_v(cv, 0, Set::empty()));
            break;
        }
        let ghost old_visited = visited@;
        visited.insert(current);
        match find_case(cases, current) {
            None => {
                assert(stmts_v(ordered@) =~= chain_v(cv, 0, Set::empty()));
                break;
            },
            Some(j) => {
                proof {
                    lemma_find_case(cv, current, 0);
                    assert(find_case_v(cv, current, 0) == Some(j as int));
                    assert(case_id_v(cv[j as int]) == Some(current));
                    lemma_cases_v_index(cases@, cases@.len() as int, j as int);
                }
                let body = &cases[j].1;
                let stripped = strip_state_assignment(body);
                let ghost before = ordered@;
                ordered.push(stripped);
                proof {
                    lemma_nodes_v_push(before, stripped);
                }
                match extract_next_state(body) {
                    Some(n) => {
                        proof {
                            lemma_unvisited_drops(cv, old_visited, current, j as int, cv.len() as int);
                        }
                        assert(stmts_v(ordered@) + chain_v(cv, n, visited@) =~= stmts_v(before) + chain_v(cv, current, old_visited));
                        current = n;
                    },
                    None => {
                        assert(stmts_v(ordered@) =~= chain_v(cv, 0, Set::empty()));
                        break;
                    },
                }
            },
        }
    }
    AstNode::Block(ordered)
}

/// The code a flattened dispatcher loop stands for, if the statement is one.
fn try_recover_flattened(node: &AstNode) -> (r: Option<AstNode>)
    ensures
        match recover_v(node_v(*node)) {
            Some(x) => r matches Some(y) && node_v(y) == x,
            None => r is None,
        },
{
    proof {
        reveal_with_fuel(node_v, 3);
        reveal_with_fuel(expr_v, 3);
        reveal_with_fuel(crate::graph::ast_view::opt_node_v, 2);
    }
    match node {
        AstNode::While { condition, body } => {
            if !is_always_true(condition) {
                return None;
            }
            match &**body {
                AstNode::Block(inner) => {
                    proof {
                        lemma_nodes_v_len(inner@, inner@.len() as int);
                    }
                    if inner.len() == 1 {
                        proof {
                            lemma_nodes_v_index(inner@, 1, 0);
                        }
                        match &inner[0] {
                            AstNode::Switch { subject, cases, .. } => {
                                if is_state_variable(subject) {
                                    return Some(recover_from_state_machine(cases));
                                }
                            },
                            _ => {},
                        }
                    }
                    None
                },
                AstNode::Switch { subject, cases, .. } => {
                    if is_state_variable(subject) {
                        Some(recover_from_state_machine(cases))
                    } else {
                        None
                    }
                },
                _ => None,
            }
        },
        _ => None,
    }
}

/// Whether a condition is `true` or `x >= 0`.
fn is_tautology(e: &AstExpr) -> (r: bool)
    ensures
        r == is_tautology_v(expr_v(*e)),
{
    proof {
        reveal_with_fuel(node_v, 3);
        reveal_with_fuel(expr_v, 3);
        reveal_with_fuel(crate::graph::ast_view::opt_node_v, 2);
    }
    match e {
        AstExpr::Literal(DartLiteral::Bool(b)) => *b,
        AstExpr::BinaryOp(_, op, rhs) => *op == BinOp::GreaterOrEqual && matches!(&**rhs, AstExpr::Literal(DartLiteral::Int(0))),
        _ => false,
    }
}

/// Whether a condition is `false` or `x < 0`.
fn is_contradiction(e: &AstExpr) -> (r: bool)
    ensures
        r == is_contradiction_v(expr_v(*e)),
{
    proof {
        reveal_with_fuel(node_v, 3);
        reveal_with_fuel(expr_v, 3);
        reveal_with_fuel(crate::graph::ast_view::opt_node_v, 2);
    }
    match e {
        AstExpr::Literal(DartLiteral::Bool(b)) => !*b,
        AstExpr::BinaryOp(_, op, rhs) => *op == BinOp::LessThan && matches!(&**rhs, AstExpr::Literal(DartLiteral::Int(0))),
        _ => false,
    }
}

/// The branch an `if` on an opaque predicate always takes.
fn try_remove_opaque_predicate(node: &AstNode) -> (r: Option<AstNode>)
    ensures
        match opaque_v(node_v(*node)) {
            Some(x) => r matches Some(y) && node_v(y) == x,
            None => r is None,
        },
{
    proof {
        reveal_with_fuel(node_v, 3);
        reveal_with_fuel(expr_v, 3);
        reveal_with_fuel(crate::graph::ast_view::opt_node_v, 2);
    }
    match node {
        AstNode::If { condition, then_body, else_body } => {
            if is_tautology(condition) {
                return Some(copy_node(&**then_body));
            }
            if is_contradiction(condition) {
                if let Some(e) = else_body {
                    return Some(copy_node(&**e));
                }
            }
            None
        },
        _ => None,
    }
}

/// Cuts a block after its first `return` or `throw`.
fn remove_dead_code(stmts: &mut Vec<AstNode>)
    ensures
        stmts_v(final(stmts)@) == dead_cut_v(stmts_v(old(stmts)@)),
{
    let ghost sv = stmts_v(stmts@);
    proof {
        lemma_nodes_v_len(stmts@, stmts@.len() as int);
    }
    let mut i: usize = 0;
    while i < stmts.len()
        invariant
            i <= stmts@.len(),
            stmts@ == old(stmts)@,
            sv == stmts_v(stmts@),
            sv.len() == stmts@.len(),
            first_exit(sv, 0) == first_exit(sv, i as int),
        decreases stmts@.len() - i,
    {
        proof {
            lemma_nodes_v_index(stmts@, stmts@.len() as int, i as int);
        }
        if matches!(stmts[i], AstNode::Return(_) | AstNode::Throw(_)) {
            let ghost full = stmts@;
            stmts.truncate(i + 1);
            proof {
                assert(stmts@ =~= full.take(i + 1));
                crate::graph::ast_view::lemma_nodes_v_pointwise_take(full, i + 1);
                assert(stmts_v(stmts@) =~= sv.take(i + 1));
            }
            return;
        }
        i = i + 1;
    }
}

/// A list of statements cleaned and simplified one by one.
fn walk_stmts(v: &Vec<AstNode>) -> (r: Vec<AstNode>)
    ensures
        stmts_v(r@) == cf_stmts(stmts_v(v@), v@.len() as int),
    decreases v@, 2int,
{
    let ghost sv = stmts_v(v@);
    proof {
        lemma_nodes_v_len(v@, v@.len() as int);
    }
    let mut out: Vec<AstNode> = Vec::new();
    let mut i: usize = 0;
    assert(stmts_v(out@) =~= Seq::<NodeV>::empty());
    while i < v.len()
        invariant
            i <= v@.len(),
            sv == stmts_v(v@),
            sv.len() == v@.len(),
            stmts_v(out@) == cf_stmts(sv, i as int),
        decreases v@.len() - i,
    {
        proof {
            lemma_nodes_v_index(v@, v@.len() as int, i as int);
        }
        let x = walk_deobf(&v[i]);
        let y = match try_recover_flattened(&x) {
            Some(r) => r,
            None => x,
        };
        let z = match try_remove_opaque_predicate(&y) {
            Some(z) => z,
            None => y,
        };
        let ghost before = out@;
        out.push(z);
        proof {
            lemma_nodes_v_push(before, z);
        }
        i = i + 1;
    }
    out
}

/// The cases of a `switch`, their bodies cleaned.
fn walk_cases(v: &Vec<(AstExpr, AstNode)>) -> (r: Vec<(AstExpr, AstNode)>)
    ensures
        cases_v(r@, r@.len() as int) == cf_cases(cases_v(v@, v@.len() as int), v@.len() as int),
    decreases v@, 2int,
{
    let ghost cv = cases_v(v@, v@.len() as int);
    proof {
        lemma_cases_v_len(v@, v@.len() as int);
    }
    let mut out: Vec<(AstExpr, AstNode)> = Vec::new();
    let mut i: usize = 0;
    assert(cases_v(out@, 0) =~= Seq::<(ExprV, NodeV)>::empty());
    while i < v.len()
        invariant
            i <= v@.len(),
            cv == cases_v(v@, v@.len() as int),
            cv.len() == v@.len(),
            out@.len() == i,
            cases_v(out@, out@.len() as int) == cf_cases(cv, i as int),
        decreases v@.len() - i,
    {
        proof {
            lemma_cases_v_index(v@, v@.len() as int, i as int);
        }
        let (c, b) = &v[i];
        let entry = (copy_expr(c), walk_deobf(b));
        let ghost before = out@;
        out.push(entry);
        proof {
            lemma_cases_v_push(before, entry);
        }
        i = i + 1;
    }
    out
}

/// The `catch` clauses of a `try`, their bodies cleaned.
fn walk_catches(v: &Vec<CatchClause>) -> (r: Vec<CatchClause>)
    ensures
        catches_v(r@, r@.len() as int) == cf_catches(catches_v(v@, v@.len() as int), v@.len() as int),
    decreases v@, 2int,
{
    let ghost cv = catches_v(v@, v@.len() as int);
    proof {
        lemma_catches_v_len(v@, v@.len() as int);
    }
    let mut out: Vec<CatchClause> = Vec::new();
    let mut i: usize = 0;
    assert(catches_v(out@, 0) =~= Seq::<CatchV>::empty());
    while i < v.len()
        invariant
            i <= v@.len(),
            cv == catches_v(v@, v@.len() as int),
            cv.len() == v@.len(),
            out@.len() == i,
            catches_v(out@, out@.len() as int) == cf_catches(cv, i as int),
        decreases v@.len() - i,
    {
        proof {
            lemma_catches_v_index(v@, v@.len() as int, i as int);
        }
        let c = &v[i];
        let entry = CatchClause {
            exception_type: crate::graph::ast_view::copy_opt_string(&c.exception_type),
            exception_var: c.exception_var.clone(),
            stack_trace_var: crate::graph::ast_view::copy_opt_string(&c.stack_trace_var),
            body: walk_deobf(&c.body),
        };
        let ghost before = out@;
        out.push(entry);
        proof {
            lemma_catches_v_push(before, entry);
        }
        i = i + 1;
    }
    out
}

/// An optional statement, cleaned.
fn walk_opt(o: &Option<Box<AstNode>>) -> (r: Option<Box<AstNode>>)
    ensures
        opt_node_v(r) == cf_opt(opt_node_v(*o)),
    decreases *o, 2int,
{
    match o {
        Some(b) => Some(Box::new(walk_deobf(&**b))),
        None => None,
    }
}

/// A block with its statements cleaned and its dead code removed.
fn walk_block(stmts: &Vec<AstNode>) -> (r: AstNode)
    ensures
        node_v(r) == cf_v(NodeV::Block(stmts_v(stmts@))),
    decreases stmts@, 3int,
{
    proof {
        lemma_nodes_v_len(stmts@, stmts@.len() as int);
    }
    let mut out = walk_stmts(stmts);
    remove_dead_code(&mut out);
    let r = AstNode::Block(out);
    assert(node_v(r) == NodeV::Block(stmts_v(out@)));
    r
}

/// A statement with flattening, opaque predicates and dead code removed
/// from its blocks, inside out.
#[verifier::rlimit(50)]
fn walk_deobf(n: &AstNode) -> (r: AstNode)
    ensures
        node_v(r) == cf_v(node_v(*n)),
    decreases *n, 1int,
{
    match n {
        AstNode::Block(stmts) => {
            assert(node_v(*n) == NodeV::Block(stmts_v(stmts@)));
            walk_block(stmts)
        },
        AstNode::If { condition, then_body, else_body } => AstNode::If {
            condition: copy_expr(condition),
            then_body: Box::new(walk_deobf(&**then_body)),
            else_body: walk_opt(else_body),
        },
        AstNode::While { condition, body } => AstNode::While {
            condition: copy_expr(condition),
            body: Box::new(walk_deobf(&**body)),
        },
        AstNode::DoWhile { body, condition } => AstNode::DoWhile {
            body: Box::new(walk_deobf(&**body)),
            condition: copy_expr(condition),
        },
        AstNode::For { init, condition, update, body } => AstNode::For {
            init: Box::new(copy_node(&**init)),
            condition: copy_expr(condition),
            update: Box::new(copy_node(&**update)),
            body: Box::new(walk_deobf(&**body)),
        },
        AstNode::TryCatch { try_body, catches, finally_body } => {
            proof {
                lemma_catches_v_len(catches@, catches@.len() as int);
            }
            AstNode::TryCatch {
                try_body: Box::new(walk_deobf(&**try_body)),
                catches: walk_catches(catches),
                finally_body: walk_opt(finally_body),
            }
        },
        AstNode::Switch { subject, cases, default } => {
            proof {
                lemma_cases_v_len(cases@, cases@.len() as int);
            }
            AstNode::Switch {
                subject: copy_expr(subject),
                cases: walk_cases(cases),
                default: walk_opt(default),
            }
        },
        _ => {
            assert(cf_v(node_v(*n)) == node_v(*n));
            copy_node(n)
        },
    }
}

/// Remove control-flow flattening obfuscation: dispatcher loops become
/// their cases in order, opaque predicates their branch, and statements
/// after a `return` or `throw` go.
pub fn deobfuscate_control_flow(ast: &mut AstNode)
    ensures
        node_v(*final(ast)) == cf_v(node_v(*old(ast))),
{
    let r = walk_deobf(ast);
    *ast = r;
}


/// The first exit found lies at or after `j`, and none lies before it.
pub proof fn lemma_first_exit(s: Seq<NodeV>, j: int)
    requires
        0 <= j,
    ensures
        first_exit(s, j) matches Some(i) ==> j <= i < s.len() && is_exit_v(s[i])
            && forall|m: int| j <= m < i ==> !is_exit_v(#[trigger] s[m]),
        first_exit(s, j) is None ==> forall|m: int| j <= m < s.len() ==> !is_exit_v(#[trigger] s[m]),
    decreases s.len() - j,
{
    if j < s.len() && !is_exit_v(s[j]) {
        lemma_first_exit(s, j + 1);
    }
}

/// Dead code removal keeps a prefix of the block, and in what it keeps no
/// statement follows a `return` or `throw`.
pub proof fn law_dead_code_removed(s: Seq<NodeV>)
    ensures
        dead_cut_v(s) == s.take(dead_cut_v(s).len() as int),
        forall|j: int| 0 <= j < dead_cut_v(s).len() - 1 ==> !is_exit_v(#[trigger] dead_cut_v(s)[j]),
{
    lemma_first_exit(s, 0);
    match first_exit(s, 0) {
        Some(i) => {
            assert(dead_cut_v(s) =~= s.take(i + 1));
            assert forall|j: int| 0 <= j < dead_cut_v(s).len() - 1 implies !is_exit_v(#[trigger] dead_cut_v(s)[j]) by {
                assert(dead_cut_v(s)[j] == s[j]);
            }
        },
        None => {
            assert(s.take(s.len() as int) =~= s);
        },
    }
}

/// Opaque predicates are only removed where one branch can never run: an
/// `if` whose condition is `true` or `x >= 0` becomes its then-branch, one
/// whose condition is `false` or `x < 0` becomes its else-branch, and an
/// `if` on any other comparison (such as `x > 0`) is kept whole. When an
/// `if` is replaced, what replaces it is one of its own branches, and the
/// else-branch only where the condition can never hold.
pub proof fn law_opaque_predicates(c: ExprV, t: NodeV, e: Option<Box<NodeV>>)
    ensures
        ({
            let n = NodeV::If { condition: c, then_body: Box::new(t), else_body: e };
            &&& (c == ExprV::Literal(LitV::Bool(true)) || (c matches ExprV::BinaryOp(_, op, rhs)
                && op == BinOp::GreaterOrEqual && *rhs == ExprV::Literal(LitV::Int(0))))
                ==> simplify_v(n) == t
            &&& (c == ExprV::Literal(LitV::Bool(false)) || (c matches ExprV::BinaryOp(_, op, rhs)
                && op == BinOp::LessThan && *rhs == ExprV::Literal(LitV::Int(0)))) && e is Some
                ==> simplify_v(n) == *e->Some_0
            &&& (c matches ExprV::BinaryOp(_, op, _) && op != BinOp::GreaterOrEqual && op != BinOp::LessThan)
                ==> simplify_v(n) == n
            &&& (c matches ExprV::BinaryOp(_, _, rhs) && *rhs != ExprV::Literal(LitV::Int(0)))
                ==> simplify_v(n) == n
            &&& simplify_v(n) == n || simplify_v(n) == t
                || (e is Some && simplify_v(n) == *e->Some_0 && (c == ExprV::Literal(LitV::Bool(false))
                    || (c matches ExprV::BinaryOp(_, op, rhs) && op == BinOp::LessThan
                        && *rhs == ExprV::Literal(LitV::Int(0)))))
        }),
{
    let n = NodeV::If { condition: c, then_body: Box::new(t), else_body: e };
    assert(recover_v(n) is None);
}

} // verus!
