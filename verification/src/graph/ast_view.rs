//! The model of a syntax tree: lists as sequences and strings as character
//! sequences, and deep copies that keep it.

use vstd::prelude::*;
use crate::graph::ast::{AstNode, AstExpr, CatchClause, DartLiteral, StringPart, BinOp, UnaryOp};

verus! {

/// The model of a literal.
pub enum LitV {
    Int(i64),
    Double(Seq<char>),
    Str(Seq<char>),
    Bool(bool),
    Null,
}

/// The model of an expression.
pub enum ExprV {
    Literal(LitV),
    Variable(Seq<char>),
    FieldAccess(Box<ExprV>, Seq<char>),
    MethodCall { receiver: Option<Box<ExprV>>, method: Seq<char>, args: Seq<ExprV>, type_args: Seq<Seq<char>> },
    BinaryOp(Box<ExprV>, BinOp, Box<ExprV>),
    UnaryOp(UnaryOp, Box<ExprV>),
    Conditional(Box<ExprV>, Box<ExprV>, Box<ExprV>),
    IsCheck(Box<ExprV>, Seq<char>),
    AsCheck(Box<ExprV>, Seq<char>),
    NullAwareAccess(Box<ExprV>, Seq<char>),
    NullAssert(Box<ExprV>),
    ListLiteral(Seq<ExprV>),
    MapLiteral(Seq<(ExprV, ExprV)>),
    RecordLiteral(Seq<ExprV>, Seq<(Seq<char>, ExprV)>),
    Lambda { params: Seq<Seq<char>>, body: Box<NodeV> },
    Cascade(Box<ExprV>, Seq<ExprV>),
    StringInterpolation(Seq<PartV>),
    IndexAccess(Box<ExprV>, Box<ExprV>),
    ConstructorCall { class_name: Seq<char>, constructor_name: Option<Seq<char>>, args: Seq<ExprV> },
}

/// The model of a part of an interpolated string.
pub enum PartV {
    Literal(Seq<char>),
    Interpolation(ExprV),
}

/// The model of a statement.
pub enum NodeV {
    Block(Seq<NodeV>),
    If { condition: ExprV, then_body: Box<NodeV>, else_body: Option<Box<NodeV>> },
    While { condition: ExprV, body: Box<NodeV> },
    DoWhile { body: Box<NodeV>, condition: ExprV },
    For { init: Box<NodeV>, condition: ExprV, update: Box<NodeV>, body: Box<NodeV> },
    Switch { subject: ExprV, cases: Seq<(ExprV, NodeV)>, default: Option<Box<NodeV>> },
    TryCatch { try_body: Box<NodeV>, catches: Seq<CatchV>, finally_body: Option<Box<NodeV>> },
    Return(Option<ExprV>),
    Throw(ExprV),
    ExprStatement(ExprV),
    VarDecl { name: Seq<char>, dart_type: Option<Seq<char>>, value: Option<ExprV>, is_final: bool, is_late: bool },
    Await(ExprV),
    Yield(ExprV),
    YieldStar(ExprV),
    Break,
    Continue,
}

/// The model of a `catch` clause.
pub struct CatchV {
    pub exception_type: Option<Seq<char>>,
    pub exception_var: Seq<char>,
    pub stack_trace_var: Option<Seq<char>>,
    pub body: NodeV,
}

/// The model of a literal.
pub open spec fn lit_v(l: DartLiteral) -> LitV {
    match l {
        DartLiteral::Int(v) => LitV::Int(v),
        DartLiteral::Double(t) => LitV::Double(t@),
        DartLiteral::String(s) => LitV::Str(s@),
        DartLiteral::Bool(b) => LitV::Bool(b),
        DartLiteral::Null => LitV::Null,
    }
}

/// The view of an optional string.
pub open spec fn opt_str_v(o: Option<String>) -> Option<Seq<char>> {
    match o {
        Some(s) => Some(s@),
        None => None,
    }
}

/// The views of a list of strings.
pub open spec fn strs_v(s: Seq<String>) -> Seq<Seq<char>> {
    s.map_values(|x: String| x@)
}

/// The model of an expression.
pub open spec fn expr_v(e: AstExpr) -> ExprV
    decreases e, 0int,
{
    match e {
        AstExpr::Literal(l) => ExprV::Literal(lit_v(l)),
        AstExpr::Variable(n) => ExprV::Variable(n@),
        AstExpr::FieldAccess(x, f) => ExprV::FieldAccess(Box::new(expr_v(*x)), f@),
        AstExpr::MethodCall { receiver, method, args, type_args } => ExprV::MethodCall {
            receiver: match receiver {
                Some(x) => Some(Box::new(expr_v(*x))),
                None => None,
            },
            method: method@,
            args: exprs_v(args@, args@.len() as int),
            type_args: strs_v(type_args@),
        },
        AstExpr::BinaryOp(l, op, r) => ExprV::BinaryOp(Box::new(expr_v(*l)), op, Box::new(expr_v(*r))),
        AstExpr::UnaryOp(op, x) => ExprV::UnaryOp(op, Box::new(expr_v(*x))),
        AstExpr::Conditional(c, t, f) => ExprV::Conditional(Box::new(expr_v(*c)), Box::new(expr_v(*t)), Box::new(expr_v(*f))),
        AstExpr::IsCheck(x, t) => ExprV::IsCheck(Box::new(expr_v(*x)), t@),
        AstExpr::AsCheck(x, t) => ExprV::AsCheck(Box::new(expr_v(*x)), t@),
        AstExpr::NullAwareAccess(x, f) => ExprV::NullAwareAccess(Box::new(expr_v(*x)), f@),
        AstExpr::NullAssert(x) => ExprV::NullAssert(Box::new(expr_v(*x))),
        AstExpr::ListLiteral(items) => ExprV::ListLiteral(exprs_v(items@, items@.len() as int)),
        AstExpr::MapLiteral(entries) => ExprV::MapLiteral(entries_v(entries@, entries@.len() as int)),
        AstExpr::RecordLiteral(pos, named) => ExprV::RecordLiteral(exprs_v(pos@, pos@.len() as int), named_v(named@, named@.len() as int)),
        AstExpr::Lambda { params, body } => ExprV::Lambda { params: strs_v(params@), body: Box::new(node_v(*body)) },
        AstExpr::Cascade(obj, calls) => ExprV::Cascade(Box::new(expr_v(*obj)), exprs_v(calls@, calls@.len() as int)),
        AstExpr::StringInterpolation(parts) => ExprV::StringInterpolation(parts_v(parts@, parts@.len() as int)),
        AstExpr::IndexAccess(o, i) => ExprV::IndexAccess(Box::new(expr_v(*o)), Box::new(expr_v(*i))),
        AstExpr::ConstructorCall { class_name, constructor_name, args } => ExprV::ConstructorCall {
            class_name: class_name@,
            constructor_name: opt_str_v(constructor_name),
            args: exprs_v(args@, args@.len() as int),
        },
    }
}

/// The models of the first `k` expressions.
pub open spec fn exprs_v(s: Seq<AstExpr>, k: int) -> Seq<ExprV>
    decreases s, k,
{
    if k <= 0 || k > s.len() { Seq::empty() } else { exprs_v(s, k - 1).push(expr_v(s[k - 1])) }
}

/// The models of the first `k` map entries.
pub open spec fn entries_v(s: Seq<(AstExpr, AstExpr)>, k: int) -> Seq<(ExprV, ExprV)>
    decreases s, k,
{
    if k <= 0 || k > s.len() { Seq::empty() } else { entries_v(s, k - 1).push((expr_v(s[k - 1].0), expr_v(s[k - 1].1))) }
}

/// The models of the first `k` named record fields.
pub open spec fn named_v(s: Seq<(String, AstExpr)>, k: int) -> Seq<(Seq<char>, ExprV)>
    decreases s, k,
{
    if k <= 0 || k > s.len() { Seq::empty() } else { named_v(s, k - 1).push((s[k - 1].0@, expr_v(s[k - 1].1))) }
}

/// The models of the first `k` string parts.
pub open spec fn parts_v(s: Seq<StringPart>, k: int) -> Seq<PartV>
    decreases s, k,
{
    if k <= 0 || k > s.len() {
        Seq::empty()
    } else {
        parts_v(s, k - 1).push(match s[k - 1] {
            StringPart::Literal(t) => PartV::Literal(t@),
            StringPart::Interpolation(x) => PartV::Interpolation(expr_v(x)),
        })
    }
}

/// The model of an optional boxed statement.
pub open spec fn opt_node_v(o: Option<Box<AstNode>>) -> Option<Box<NodeV>>
    decreases o, 0int,
{
    match o {
        Some(n) => Some(Box::new(node_v(*n))),
        None => None,
    }
}

/// The model of an optional expression.
pub open spec fn opt_expr_v(o: Option<AstExpr>) -> Option<ExprV>
    decreases o, 0int,
{
    match o {
        Some(x) => Some(expr_v(x)),
        None => None,
    }
}

/// The model of a statement.
pub open spec fn node_v(n: AstNode) -> NodeV
    decreases n, 1int,
{
    match n {
        AstNode::Block(stmts) => NodeV::Block(nodes_v(stmts@, stmts@.len() as int)),
        AstNode::If { condition, then_body, else_body } => NodeV::If {
            condition: expr_v(condition),
            then_body: Box::new(node_v(*then_body)),
            else_body: opt_node_v(else_body),
        },
        AstNode::While { condition, body } => NodeV::While { condition: expr_v(condition), body: Box::new(node_v(*body)) },
        AstNode::DoWhile { body, condition } => NodeV::DoWhile { body: Box::new(node_v(*body)), condition: expr_v(condition) },
        AstNode::For { init, condition, update, body } => NodeV::For {
            init: Box::new(node_v(*init)),
            condition: expr_v(condition),
            update: Box::new(node_v(*update)),
            body: Box::new(node_v(*body)),
        },
        AstNode::Switch { subject, cases, default } => NodeV::Switch {
            subject: expr_v(subject),
            cases: cases_v(cases@, cases@.len() as int),
            default: opt_node_v(default),
        },
        AstNode::TryCatch { try_body, catches, finally_body } => NodeV::TryCatch {
            try_body: Box::new(node_v(*try_body)),
            catches: catches_v(catches@, catches@.len() as int),
            finally_body: opt_node_v(finally_body),
        },
        AstNode::Return(x) => NodeV::Return(opt_expr_v(x)),
        AstNode::Throw(x) => NodeV::Throw(expr_v(x)),
        AstNode::ExprStatement(x) => NodeV::ExprStatement(expr_v(x)),
        AstNode::VarDecl { name, dart_type, value, is_final, is_late } => NodeV::VarDecl {
            name: name@,
            dart_type: opt_str_v(dart_type),
            value: opt_expr_v(value),
            is_final,
            is_late,
        },
        AstNode::Await(x) => NodeV::Await(expr_v(x)),
        AstNode::Yield(x) => NodeV::Yield(expr_v(x)),
        AstNode::YieldStar(x) => NodeV::YieldStar(expr_v(x)),
        AstNode::Break => NodeV::Break,
        AstNode::Continue => NodeV::Continue,
    }
}

/// The models of the first `k` statements.
pub open spec fn nodes_v(s: Seq<AstNode>, k: int) -> Seq<NodeV>
    decreases s, k,
{
    if k <= 0 || k > s.len() { Seq::empty() } else { nodes_v(s, k - 1).push(node_v(s[k - 1])) }
}

/// The models of the first `k` cases of a `switch`.
pub open spec fn cases_v(s: Seq<(AstExpr, AstNode)>, k: int) -> Seq<(ExprV, NodeV)>
    decreases s, k,
{
    if k <= 0 || k > s.len() { Seq::empty() } else { cases_v(s, k - 1).push((expr_v(s[k - 1].0), node_v(s[k - 1].1))) }
}

/// The model of a `catch` clause.
pub open spec fn catch_v(c: CatchClause) -> CatchV
    decreases c, 0int,
{
    CatchV {
        exception_type: opt_str_v(c.exception_type),
        exception_var: c.exception_var@,
        stack_trace_var: opt_str_v(c.stack_trace_var),
        body: node_v(c.body),
    }
}

/// The models of the first `k` `catch` clauses.
pub open spec fn catches_v(s: Seq<CatchClause>, k: int) -> Seq<CatchV>
    decreases s, k,
{
    if k <= 0 || k > s.len() { Seq::empty() } else { catches_v(s, k - 1).push(catch_v(s[k - 1])) }
}

/// The model of a whole list of statements.
pub open spec fn stmts_v(s: Seq<AstNode>) -> Seq<NodeV> {
    nodes_v(s, s.len() as int)
}

/// Statement lists with the same models element by element have the same
/// model.
pub proof fn lemma_nodes_v_pointwise(a: Seq<AstNode>, b: Seq<AstNode>, k: int)
    requires
        0 <= k <= a.len(),
        k <= b.len(),
        forall|j: int| 0 <= j < k ==> node_v(#[trigger] a[j]) == node_v(b[j]),
    ensures
        nodes_v(a, k) == nodes_v(b, k),
    decreases k,
{
    if k > 0 {
        lemma_nodes_v_pointwise(a, b, k - 1);
    }
}

/// The models of the first `k` statements are those of the list's first
/// `k` element models.
pub proof fn lemma_nodes_v_index(s: Seq<AstNode>, k: int, j: int)
    requires
        0 <= j < k <= s.len(),
    ensures
        nodes_v(s, k).len() == k,
        nodes_v(s, k)[j] == node_v(s[j]),
    decreases k,
{
    lemma_nodes_v_len(s, k - 1);
    if j < k - 1 {
        lemma_nodes_v_index(s, k - 1, j);
    }
}

/// The model of the first `k` statements has `k` elements.
pub proof fn lemma_nodes_v_len(s: Seq<AstNode>, k: int)
    requires
        0 <= k <= s.len(),
    ensures
        nodes_v(s, k).len() == k,
    decreases k,
{
    if k > 0 {
        lemma_nodes_v_len(s, k - 1);
    }
}

/// The model of a prefix of a statement list is the prefix of its model.
pub proof fn lemma_nodes_v_pointwise_take(s: Seq<AstNode>, k: int)
    requires
        0 <= k <= s.len(),
    ensures
        nodes_v(s.take(k), k) == nodes_v(s, s.len() as int).take(k),
{
    lemma_nodes_v_pointwise(s.take(k), s, k);
    lemma_nodes_v_len(s, s.len() as int);
    lemma_nodes_v_len(s, k);
    assert forall|j: int| 0 <= j < k implies nodes_v(s, k)[j] == nodes_v(s, s.len() as int)[j] by {
        lemma_nodes_v_index(s, k, j);
        lemma_nodes_v_index(s, s.len() as int, j);
    }
    assert(nodes_v(s, k) =~= nodes_v(s, s.len() as int).take(k));
}

/// Appending a statement appends its model.
pub proof fn lemma_nodes_v_push(s: Seq<AstNode>, x: AstNode)
    ensures
        nodes_v(s.push(x), s.len() + 1int) == nodes_v(s, s.len() as int).push(node_v(x)),
{
    lemma_nodes_v_pointwise(s.push(x), s, s.len() as int);
}

/// The model of the first `k` cases of a `switch` holds the models of
/// those cases.
pub proof fn lemma_cases_v_index(s: Seq<(AstExpr, AstNode)>, k: int, j: int)
    requires
        0 <= j < k <= s.len(),
    ensures
        cases_v(s, k).len() == k,
        cases_v(s, k)[j] == (expr_v(s[j].0), node_v(s[j].1)),
    decreases k,
{
    lemma_cases_v_len(s, k - 1);
    if j < k - 1 {
        lemma_cases_v_index(s, k - 1, j);
    }
}

/// The model of the first `k` cases has `k` elements.
pub proof fn lemma_cases_v_len(s: Seq<(AstExpr, AstNode)>, k: int)
    requires
        0 <= k <= s.len(),
    ensures
        cases_v(s, k).len() == k,
    decreases k,
{
    if k > 0 {
        lemma_cases_v_len(s, k - 1);
    }
}

/// Appending a case appends its model.
pub proof fn lemma_cases_v_push(s: Seq<(AstExpr, AstNode)>, x: (AstExpr, AstNode))
    ensures
        cases_v(s.push(x), s.len() + 1int) == cases_v(s, s.len() as int).push((expr_v(x.0), node_v(x.1))),
{
    lemma_cases_v_pointwise(s.push(x), s, s.len() as int);
}

/// The model of the first `k` `catch` clauses holds their models.
pub proof fn lemma_catches_v_index(s: Seq<CatchClause>, k: int, j: int)
    requires
        0 <= j < k <= s.len(),
    ensures
        catches_v(s, k).len() == k,
        catches_v(s, k)[j] == catch_v(s[j]),
    decreases k,
{
    lemma_catches_v_len(s, k - 1);
    if j < k - 1 {
        lemma_catches_v_index(s, k - 1, j);
    }
}

/// The model of the first `k` `catch` clauses has `k` elements.
pub proof fn lemma_catches_v_len(s: Seq<CatchClause>, k: int)
    requires
        0 <= k <= s.len(),
    ensures
        catches_v(s, k).len() == k,
    decreases k,
{
    if k > 0 {
        lemma_catches_v_len(s, k - 1);
    }
}

/// Appending a `catch` clause appends its model.
pub proof fn lemma_catches_v_push(s: Seq<CatchClause>, x: CatchClause)
    ensures
        catches_v(s.push(x), s.len() + 1int) == catches_v(s, s.len() as int).push(catch_v(x)),
{
    lemma_catches_v_pointwise(s.push(x), s, s.len() as int);
}

/// The model of the first `k` expressions holds their models.
pub proof fn lemma_exprs_v_index(s: Seq<AstExpr>, k: int, j: int)
    requires
        0 <= j < k <= s.len(),
    ensures
        exprs_v(s, k).len() == k,
        exprs_v(s, k)[j] == expr_v(s[j]),
    decreases k,
{
    lemma_exprs_v_len(s, k - 1);
    if j < k - 1 {
        lemma_exprs_v_index(s, k - 1, j);
    }
}

/// The model of the first `k` expressions has `k` elements.
pub proof fn lemma_exprs_v_len(s: Seq<AstExpr>, k: int)
    requires
        0 <= k <= s.len(),
    ensures
        exprs_v(s, k).len() == k,
    decreases k,
{
    if k > 0 {
        lemma_exprs_v_len(s, k - 1);
    }
}

/// Appending an expression appends its model.
pub proof fn lemma_exprs_v_push(s: Seq<AstExpr>, x: AstExpr)
    ensures
        exprs_v(s.push(x), s.len() + 1int) == exprs_v(s, s.len() as int).push(expr_v(x)),
{
    lemma_exprs_v_pointwise(s.push(x), s, s.len() as int);
}

proof fn lemma_exprs_v_pointwise(a: Seq<AstExpr>, b: Seq<AstExpr>, k: int)
    requires
        0 <= k <= a.len(),
        k <= b.len(),
        forall|j: int| 0 <= j < k ==> expr_v(#[trigger] a[j]) == expr_v(b[j]),
    ensures
        exprs_v(a, k) == exprs_v(b, k),
    decreases k,
{
    if k > 0 {
        lemma_exprs_v_pointwise(a, b, k - 1);
    }
}

proof fn lemma_entries_v_pointwise(a: Seq<(AstExpr, AstExpr)>, b: Seq<(AstExpr, AstExpr)>, k: int)
    requires
        0 <= k <= a.len(),
        k <= b.len(),
        forall|j: int| 0 <= j < k ==> expr_v((#[trigger] a[j]).0) == expr_v(b[j].0) && expr_v(a[j].1) == expr_v(b[j].1),
    ensures
        entries_v(a, k) == entries_v(b, k),
    decreases k,
{
    if k > 0 {
        lemma_entries_v_pointwise(a, b, k - 1);
    }
}

proof fn lemma_named_v_pointwise(a: Seq<(String, AstExpr)>, b: Seq<(String, AstExpr)>, k: int)
    requires
        0 <= k <= a.len(),
        k <= b.len(),
        forall|j: int| 0 <= j < k ==> (#[trigger] a[j]).0@ == b[j].0@ && expr_v(a[j].1) == expr_v(b[j].1),
    ensures
        named_v(a, k) == named_v(b, k),
    decreases k,
{
    if k > 0 {
        lemma_named_v_pointwise(a, b, k - 1);
    }
}

proof fn lemma_parts_v_pointwise(a: Seq<StringPart>, b: Seq<StringPart>, k: int)
    requires
        0 <= k <= a.len(),
        k <= b.len(),
        forall|j: int| 0 <= j < k ==> part_v(#[trigger] a[j]) == part_v(b[j]),
    ensures
        parts_v(a, k) == parts_v(b, k),
    decreases k,
{
    if k > 0 {
        lemma_parts_v_pointwise(a, b, k - 1);
    }
}

/// The model of a string part.
pub open spec fn part_v(p: StringPart) -> PartV {
    match p {
        StringPart::Literal(t) => PartV::Literal(t@),
        StringPart::Interpolation(x) => PartV::Interpolation(expr_v(x)),
    }
}

proof fn lemma_cases_v_pointwise(a: Seq<(AstExpr, AstNode)>, b: Seq<(AstExpr, AstNode)>, k: int)
    requires
        0 <= k <= a.len(),
        k <= b.len(),
        forall|j: int| 0 <= j < k ==> expr_v((#[trigger] a[j]).0) == expr_v(b[j].0) && node_v(a[j].1) == node_v(b[j].1),
    ensures
        cases_v(a, k) == cases_v(b, k),
    decreases k,
{
    if k > 0 {
        lemma_cases_v_pointwise(a, b, k - 1);
    }
}

proof fn lemma_catches_v_pointwise(a: Seq<CatchClause>, b: Seq<CatchClause>, k: int)
    requires
        0 <= k <= a.len(),
        k <= b.len(),
        forall|j: int| 0 <= j < k ==> catch_v(#[trigger] a[j]) == catch_v(b[j]),
    ensures
        catches_v(a, k) == catches_v(b, k),
    decreases k,
{
    if k > 0 {
        lemma_catches_v_pointwise(a, b, k - 1);
    }
}



/// A copy of a literal.
pub fn copy_literal(l: &DartLiteral) -> (r: DartLiteral)
    ensures
        lit_v(r) == lit_v(*l),
{
    match l {
        DartLiteral::Int(v) => DartLiteral::Int(*v),
        DartLiteral::Double(t) => DartLiteral::Double(t.clone()),
        DartLiteral::String(s) => DartLiteral::String(s.clone()),
        DartLiteral::Bool(b) => DartLiteral::Bool(*b),
        DartLiteral::Null => DartLiteral::Null,
    }
}

/// A copy of a list of strings.
pub fn copy_strings(v: &Vec<String>) -> (r: Vec<String>)
    ensures
        r@ == v@,
{
    let mut r: Vec<String> = Vec::new();
    let mut i: usize = 0;
    while i < v.len()
        invariant
            i <= v@.len(),
            r@ == v@.take(i as int),
        decreases v@.len() - i,
    {
        r.push(v[i].clone());
        assert(r@ =~= v@.take(i + 1));
        i = i + 1;
    }
    assert(r@ =~= v@);
    r
}

/// A copy of an optional string.
pub fn copy_opt_string(o: &Option<String>) -> (r: Option<String>)
    ensures
        r == *o,
{
    match o {
        Some(s) => Some(s.clone()),
        None => None,
    }
}

/// A copy of a boxed expression.
pub fn copy_boxed(e: &Box<AstExpr>) -> (r: Box<AstExpr>)
    ensures
        expr_v(*r) == expr_v(**e),
    decreases **e, 3int,
{
    Box::new(copy_expr(&**e))
}

/// A copy of an expression.
pub fn copy_expr(e: &AstExpr) -> (r: AstExpr)
    ensures
        expr_v(r) == expr_v(*e),
    decreases *e, 2int,
{
    match e {
        AstExpr::Literal(l) => AstExpr::Literal(copy_literal(l)),
        AstExpr::Variable(n) => AstExpr::Variable(n.clone()),
        AstExpr::FieldAccess(x, f) => AstExpr::FieldAccess(copy_boxed(x), f.clone()),
        AstExpr::MethodCall { receiver, method, args, type_args } => {
            let rc = match receiver {
                Some(x) => Some(copy_boxed(x)),
                None => None,
            };
            AstExpr::MethodCall { receiver: rc, method: method.clone(), args: copy_exprs(args), type_args: copy_strings(type_args) }
        },
        AstExpr::BinaryOp(l, op, r) => AstExpr::BinaryOp(copy_boxed(l), *op, copy_boxed(r)),
        AstExpr::UnaryOp(op, x) => AstExpr::UnaryOp(*op, copy_boxed(x)),
        AstExpr::Conditional(c, t, f) => AstExpr::Conditional(copy_boxed(c), copy_boxed(t), copy_boxed(f)),
        AstExpr::IsCheck(x, t) => AstExpr::IsCheck(copy_boxed(x), t.clone()),
        AstExpr::AsCheck(x, t) => AstExpr::AsCheck(copy_boxed(x), t.clone()),
        AstExpr::NullAwareAccess(x, f) => AstExpr::NullAwareAccess(copy_boxed(x), f.clone()),
        AstExpr::NullAssert(x) => AstExpr::NullAssert(copy_boxed(x)),
        AstExpr::ListLiteral(items) => AstExpr::ListLiteral(copy_exprs(items)),
        AstExpr::MapLiteral(entries) => AstExpr::MapLiteral(copy_entries(entries)),
        AstExpr::RecordLiteral(pos, named) => AstExpr::RecordLiteral(copy_exprs(pos), copy_named(named)),
        AstExpr::Lambda { params, body } => AstExpr::Lambda { params: copy_strings(params), body: Box::new(copy_node(&**body)) },
        AstExpr::Cascade(obj, calls) => AstExpr::Cascade(copy_boxed(obj), copy_exprs(calls)),
        AstExpr::StringInterpolation(parts) => AstExpr::StringInterpolation(copy_parts(parts)),
        AstExpr::IndexAccess(o, i) => AstExpr::IndexAccess(copy_boxed(o), copy_boxed(i)),
        AstExpr::ConstructorCall { class_name, constructor_name, args } => AstExpr::ConstructorCall {
            class_name: class_name.clone(),
            constructor_name: copy_opt_string(constructor_name),
            args: copy_exprs(args),
        },
    }
}

/// A copy of a list of expressions.
pub fn copy_exprs(v: &Vec<AstExpr>) -> (r: Vec<AstExpr>)
    ensures
        r@.len() == v@.len(),
        exprs_v(r@, r@.len() as int) == exprs_v(v@, v@.len() as int),
    decreases v@, 3int,
{
    let mut r: Vec<AstExpr> = Vec::new();
    let mut i: usize = 0;
    while i < v.len()
        invariant
            i <= v@.len(),
            r@.len() == i,
            forall|j: int| 0 <= j < i ==> expr_v(#[trigger] r@[j]) == expr_v(v@[j]),
        decreases v@.len() - i,
    {
        r.push(copy_expr(&v[i]));
        i = i + 1;
    }
    proof {
        lemma_exprs_v_pointwise(r@, v@, v@.len() as int);
    }
    r
}

/// A copy of the entries of a map literal.
pub fn copy_entries(v: &Vec<(AstExpr, AstExpr)>) -> (r: Vec<(AstExpr, AstExpr)>)
    ensures
        r@.len() == v@.len(),
        entries_v(r@, r@.len() as int) == entries_v(v@, v@.len() as int),
    decreases v@, 3int,
{
    let mut r: Vec<(AstExpr, AstExpr)> = Vec::new();
    let mut i: usize = 0;
    while i < v.len()
        invariant
            i <= v@.len(),
            r@.len() == i,
            forall|j: int| 0 <= j < i ==> expr_v((#[trigger] r@[j]).0) == expr_v(v@[j].0) && expr_v(r@[j].1) == expr_v(v@[j].1),
        decreases v@.len() - i,
    {
        let (k, x) = &v[i];
        r.push((copy_expr(k), copy_expr(x)));
        i = i + 1;
    }
    proof {
        lemma_entries_v_pointwise(r@, v@, v@.len() as int);
    }
    r
}

/// A copy of the named fields of a record literal.
pub fn copy_named(v: &Vec<(String, AstExpr)>) -> (r: Vec<(String, AstExpr)>)
    ensures
        r@.len() == v@.len(),
        named_v(r@, r@.len() as int) == named_v(v@, v@.len() as int),
    decreases v@, 3int,
{
    let mut r: Vec<(String, AstExpr)> = Vec::new();
    let mut i: usize = 0;
    while i < v.len()
        invariant
            i <= v@.len(),
            r@.len() == i,
            forall|j: int| 0 <= j < i ==> (#[trigger] r@[j]).0@ == v@[j].0@ && expr_v(r@[j].1) == expr_v(v@[j].1),
        decreases v@.len() - i,
    {
        let (n, x) = &v[i];
        r.push((n.clone(), copy_expr(x)));
        i = i + 1;
    }
    proof {
        lemma_named_v_pointwise(r@, v@, v@.len() as int);
    }
    r
}

/// A copy of the parts of an interpolated string.
pub fn copy_parts(v: &Vec<StringPart>) -> (r: Vec<StringPart>)
    ensures
        r@.len() == v@.len(),
        parts_v(r@, r@.len() as int) == parts_v(v@, v@.len() as int),
    decreases v@, 3int,
{
    let mut r: Vec<StringPart> = Vec::new();
    let mut i: usize = 0;
    while i < v.len()
        invariant
            i <= v@.len(),
            r@.len() == i,
            forall|j: int| 0 <= j < i ==> part_v(#[trigger] r@[j]) == part_v(v@[j]),
        decreases v@.len() - i,
    {
        let p = match &v[i] {
            StringPart::Literal(t) => StringPart::Literal(t.clone()),
            StringPart::Interpolation(x) => StringPart::Interpolation(copy_expr(x)),
        };
        r.push(p);
        i = i + 1;
    }
    proof {
        lemma_parts_v_pointwise(r@, v@, v@.len() as int);
    }
    r
}

/// A copy of an optional expression.
pub fn copy_opt_expr(o: &Option<AstExpr>) -> (r: Option<AstExpr>)
    ensures
        opt_expr_v(r) == opt_expr_v(*o),
    decreases *o, 3int,
{
    match o {
        Some(x) => Some(copy_expr(x)),
        None => None,
    }
}

/// A copy of an optional boxed statement.
pub fn copy_opt_node(o: &Option<Box<AstNode>>) -> (r: Option<Box<AstNode>>)
    ensures
        opt_node_v(r) == opt_node_v(*o),
    decreases *o, 3int,
{
    match o {
        Some(n) => Some(Box::new(copy_node(&**n))),
        None => None,
    }
}

/// A copy of a statement.
pub fn copy_node(n: &AstNode) -> (r: AstNode)
    ensures
        node_v(r) == node_v(*n),
    decreases *n, 2int,
{
    match n {
        AstNode::Block(stmts) => AstNode::Block(copy_nodes(stmts)),
        AstNode::If { condition, then_body, else_body } => AstNode::If {
            condition: copy_expr(condition),
            then_body: Box::new(copy_node(&**then_body)),
            else_body: copy_opt_node(else_body),
        },
        AstNode::While { condition, body } => AstNode::While {
            condition: copy_expr(condition),
            body: Box::new(copy_node(&**body)),
        },
        AstNode::DoWhile { body, condition } => AstNode::DoWhile {
            body: Box::new(copy_node(&**body)),
            condition: copy_expr(condition),
        },
        AstNode::For { init, condition, update, body } => AstNode::For {
            init: Box::new(copy_node(&**init)),
            condition: copy_expr(condition),
            update: Box::new(copy_node(&**update)),
            body: Box::new(copy_node(&**body)),
        },
        AstNode::Switch { subject, cases, default } => AstNode::Switch {
            subject: copy_expr(subject),
            cases: copy_cases(cases),
            default: copy_opt_node(default),
        },
        AstNode::TryCatch { try_body, catches, finally_body } => AstNode::TryCatch {
            try_body: Box::new(copy_node(&**try_body)),
            catches: copy_catches(catches),
            finally_body: copy_opt_node(finally_body),
        },
        AstNode::Return(x) => AstNode::Return(copy_opt_expr(x)),
        AstNode::Throw(x) => AstNode::Throw(copy_expr(x)),
        AstNode::ExprStatement(x) => AstNode::ExprStatement(copy_expr(x)),
        AstNode::VarDecl { name, dart_type, value, is_final, is_late } => AstNode::VarDecl {
            name: name.clone(),
            dart_type: copy_opt_string(dart_type),
            value: copy_opt_expr(value),
            is_final: *is_final,
            is_late: *is_late,
        },
        AstNode::Await(x) => AstNode::Await(copy_expr(x)),
        AstNode::Yield(x) => AstNode::Yield(copy_expr(x)),
        AstNode::YieldStar(x) => AstNode::YieldStar(copy_expr(x)),
        AstNode::Break => AstNode::Break,
        AstNode::Continue => AstNode::Continue,
    }
}

/// A copy of a list of statements.
pub fn copy_nodes(v: &Vec<AstNode>) -> (r: Vec<AstNode>)
    ensures
        r@.len() == v@.len(),
        nodes_v(r@, r@.len() as int) == nodes_v(v@, v@.len() as int),
    decreases v@, 3int,
{
    let mut r: Vec<AstNode> = Vec::new();
    let mut i: usize = 0;
    while i < v.len()
        invariant
            i <= v@.len(),
            r@.len() == i,
            forall|j: int| 0 <= j < i ==> node_v(#[trigger] r@[j]) == node_v(v@[j]),
        decreases v@.len() - i,
    {
        r.push(copy_node(&v[i]));
        i = i + 1;
    }
    proof {
        lemma_nodes_v_pointwise(r@, v@, v@.len() as int);
    }
    r
}

/// A copy of the cases of a `switch`.
pub fn copy_cases(v: &Vec<(AstExpr, AstNode)>) -> (r: Vec<(AstExpr, AstNode)>)
    ensures
        r@.len() == v@.len(),
        cases_v(r@, r@.len() as int) == cases_v(v@, v@.len() as int),
    decreases v@, 3int,
{
    let mut r: Vec<(AstExpr, AstNode)> = Vec::new();
    let mut i: usize = 0;
    while i < v.len()
        invariant
            i <= v@.len(),
            r@.len() == i,
            forall|j: int| 0 <= j < i ==> expr_v((#[trigger] r@[j]).0) == expr_v(v@[j].0) && node_v(r@[j].1) == node_v(v@[j].1),
        decreases v@.len() - i,
    {
        let (x, b) = &v[i];
        r.push((copy_expr(x), copy_node(b)));
        i = i + 1;
    }
    proof {
        lemma_cases_v_pointwise(r@, v@, v@.len() as int);
    }
    r
}

/// A copy of the `catch` clauses of a `try`.
pub fn copy_catches(v: &Vec<CatchClause>) -> (r: Vec<CatchClause>)
    ensures
        r@.len() == v@.len(),
        catches_v(r@, r@.len() as int) == catches_v(v@, v@.len() as int),
    decreases v@, 3int,
{
    let mut r: Vec<CatchClause> = Vec::new();
    let mut i: usize = 0;
    while i < v.len()
        invariant
            i <= v@.len(),
            r@.len() == i,
            forall|j: int| 0 <= j < i ==> catch_v(#[trigger] r@[j]) == catch_v(v@[j]),
        decreases v@.len() - i,
    {
        let c = &v[i];
        r.push(CatchClause {
            exception_type: copy_opt_string(&c.exception_type),
            exception_var: c.exception_var.clone(),
            stack_trace_var: copy_opt_string(&c.stack_trace_var),
            body: copy_node(&c.body),
        });
        i = i + 1;
    }
    proof {
        lemma_catches_v_pointwise(r@, v@, v@.len() as int);
    }
    r
}

} // verus!
