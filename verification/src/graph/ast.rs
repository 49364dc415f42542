//! The Dart abstract syntax tree of decompiled code, and its Dart source text.

use vstd::prelude::*;
use crate::text::{int_decimal_seq, escape_quotes, trim_seq};

verus! {

/// Dart AST node for decompiled code.
#[derive(Debug)]
pub enum AstNode {
    Block(Vec<AstNode>),
    If { condition: AstExpr, then_body: Box<AstNode>, else_body: Option<Box<AstNode>> },
    While { condition: AstExpr, body: Box<AstNode> },
    DoWhile { body: Box<AstNode>, condition: AstExpr },
    For { init: Box<AstNode>, condition: AstExpr, update: Box<AstNode>, body: Box<AstNode> },
    Switch { subject: AstExpr, cases: Vec<(AstExpr, AstNode)>, default: Option<Box<AstNode>> },
    TryCatch { try_body: Box<AstNode>, catches: Vec<CatchClause>, finally_body: Option<Box<AstNode>> },
    Return(Option<AstExpr>),
    Throw(AstExpr),
    ExprStatement(AstExpr),
    VarDecl { name: String, dart_type: Option<String>, value: Option<AstExpr>, is_final: bool, is_late: bool },
    Await(AstExpr),
    Yield(AstExpr),
    YieldStar(AstExpr),
    Break,
    Continue,
}

/// A `catch` clause of a `try` statement.
#[derive(Debug)]
pub struct CatchClause {
    pub exception_type: Option<String>,
    pub exception_var: String,
    pub stack_trace_var: Option<String>,
    pub body: AstNode,
}

/// Dart AST expression.
#[derive(Debug)]
pub enum AstExpr {
    Literal(DartLiteral),
    Variable(String),
    FieldAccess(Box<AstExpr>, String),
    MethodCall { receiver: Option<Box<AstExpr>>, method: String, args: Vec<AstExpr>, type_args: Vec<String> },
    BinaryOp(Box<AstExpr>, BinOp, Box<AstExpr>),
    UnaryOp(UnaryOp, Box<AstExpr>),
    Conditional(Box<AstExpr>, Box<AstExpr>, Box<AstExpr>),
    IsCheck(Box<AstExpr>, String),
    AsCheck(Box<AstExpr>, String),
    NullAwareAccess(Box<AstExpr>, String),
    NullAssert(Box<AstExpr>),
    ListLiteral(Vec<AstExpr>),
    MapLiteral(Vec<(AstExpr, AstExpr)>),
    RecordLiteral(Vec<AstExpr>, Vec<(String, AstExpr)>),
    Lambda { params: Vec<String>, body: Box<AstNode> },
    Cascade(Box<AstExpr>, Vec<AstExpr>),
    StringInterpolation(Vec<StringPart>),
    IndexAccess(Box<AstExpr>, Box<AstExpr>),
    ConstructorCall { class_name: String, constructor_name: Option<String>, args: Vec<AstExpr> },
}

/// A Dart literal. A double is held as the text that Rust's `Display` gives it.
#[derive(Debug)]
pub enum DartLiteral {
    Int(i64),
    Double(String),
    String(String),
    Bool(bool),
    Null,
}

/// A binary operator.
#[derive(Debug, Clone, Copy, PartialEq, Eq, Structural)]
pub enum BinOp {
    Add,
    Sub,
    Mul,
    Div,
    Mod,
    Equal,
    NotEqual,
    LessThan,
    GreaterThan,
    LessOrEqual,
    GreaterOrEqual,
    LogicalAnd,
    LogicalOr,
    BitwiseAnd,
    BitwiseOr,
    BitwiseXor,
    ShiftLeft,
    ShiftRight,
    NullCoalesce,
    Assign,
}

/// A unary operator.
#[derive(Debug, Clone, Copy, PartialEq, Eq, Structural)]
pub enum UnaryOp {
    Neg,
    Not,
    BitwiseNot,
    PreIncrement,
    PostIncrement,
    PreDecrement,
    PostDecrement,
}

/// A part of an interpolated string.
#[derive(Debug)]
pub enum StringPart {
    Literal(String),
    Interpolation(AstExpr),
}

/// The Dart text of a binary operator.
pub open spec fn binop_text(op: BinOp) -> Seq<char> {
    match op {
        BinOp::Add => "+"@,
        BinOp::Sub => "-"@,
        BinOp::Mul => "*"@,
        BinOp::Div => "/"@,
        BinOp::Mod => "%"@,
        BinOp::Equal => "=="@,
        BinOp::NotEqual => "!="@,
        BinOp::LessThan => "<"@,
        BinOp::GreaterThan => ">"@,
        BinOp::LessOrEqual => "<="@,
        BinOp::GreaterOrEqual => ">="@,
        BinOp::LogicalAnd => "&&"@,
        BinOp::LogicalOr => "||"@,
        BinOp::BitwiseAnd => "&"@,
        BinOp::BitwiseOr => "|"@,
        BinOp::BitwiseXor => "^"@,
        BinOp::ShiftLeft => "<<"@,
        BinOp::ShiftRight => ">>"@,
        BinOp::NullCoalesce => "??"@,
        BinOp::Assign => "="@,
    }
}

/// How tightly a binary operator binds in Dart, loosest first: assignment,
/// `??`, `||`, `&&`, equality, relational, `|`, `^`, `&`, shifts, additive,
/// multiplicative.
pub open spec fn binop_prec(op: BinOp) -> int {
    match op {
        BinOp::Assign => 1,
        BinOp::NullCoalesce => 3,
        BinOp::LogicalOr => 4,
        BinOp::LogicalAnd => 5,
        BinOp::Equal | BinOp::NotEqual => 6,
        BinOp::LessThan | BinOp::GreaterThan | BinOp::LessOrEqual | BinOp::GreaterOrEqual => 7,
        BinOp::BitwiseOr => 8,
        BinOp::BitwiseXor => 9,
        BinOp::BitwiseAnd => 10,
        BinOp::ShiftLeft | BinOp::ShiftRight => 11,
        BinOp::Add | BinOp::Sub => 12,
        BinOp::Mul | BinOp::Div | BinOp::Mod => 13,
    }
}

/// How tightly an expression binds as an operand: a binary operation as its
/// operator, a conditional just above assignment, `is` and `as` at the
/// relational level, lambdas and cascades loosest of all, and every other
/// expression tighter than any operator.
pub open spec fn expr_prec(e: AstExpr) -> int {
    match e {
        AstExpr::BinaryOp(_, op, _) => binop_prec(op),
        AstExpr::Conditional(_, _, _) => 2,
        AstExpr::IsCheck(_, _) | AstExpr::AsCheck(_, _) => 7,
        AstExpr::Lambda { .. } | AstExpr::Cascade(_, _) => 0,
        _ => 20,
    }
}

/// The left operand of `op` needs parentheses: it binds more loosely, or as
/// tightly where `op` does not group to the left (assignment, equality,
/// relational operators).
pub open spec fn paren_left(op: BinOp, e: AstExpr) -> bool {
    let p = binop_prec(op);
    expr_prec(e) < p || (expr_prec(e) == p && (p == 1 || p == 6 || p == 7))
}

/// The right operand of `op` needs parentheses: it binds more loosely, or as
/// tightly where `op` is not an assignment (which groups to the right).
pub open spec fn paren_right(op: BinOp, e: AstExpr) -> bool {
    let p = binop_prec(op);
    expr_prec(e) < p || (expr_prec(e) == p && p != 1)
}

/// The operand of a prefix or postfix operator, a member access or an
/// index needs parentheses: it is an operation of its own.
pub open spec fn paren_tight(e: AstExpr) -> bool {
    expr_prec(e) < 20
}

/// The operand of `is` or `as` needs parentheses: it binds no tighter than
/// a relational operator.
pub open spec fn paren_relational(e: AstExpr) -> bool {
    expr_prec(e) <= 7
}

/// The Dart text of a unary operator (both increments and both decrements
/// read the same).
pub open spec fn unop_text(op: UnaryOp) -> Seq<char> {
    match op {
        UnaryOp::Neg => "-"@,
        UnaryOp::Not => "!"@,
        UnaryOp::BitwiseNot => "~"@,
        UnaryOp::PreIncrement => "++"@,
        UnaryOp::PostIncrement => "++"@,
        UnaryOp::PreDecrement => "--"@,
        UnaryOp::PostDecrement => "--"@,
    }
}

/// The Dart text of a literal.
pub open spec fn literal_text(lit: DartLiteral) -> Seq<char> {
    match lit {
        DartLiteral::Int(v) => int_decimal_seq(v as int),
        DartLiteral::Double(t) => t@,
        DartLiteral::String(s) => "'"@ + escape_quotes(s@) + "'"@,
        DartLiteral::Bool(b) => if b { "true"@ } else { "false"@ },
        DartLiteral::Null => "null"@,
    }
}

/// `n` levels of two-space indentation.
pub open spec fn pad_text(n: nat) -> Seq<char>
    decreases n,
{
    if n == 0 {
        Seq::empty()
    } else {
        pad_text((n - 1) as nat) + "  "@
    }
}

/// The first `k` strings joined with `, `.
pub open spec fn join_strs(s: Seq<String>, k: int) -> Seq<char>
    decreases k,
{
    if k <= 0 || k > s.len() {
        Seq::empty()
    } else if k == 1 {
        s[0]@
    } else {
        join_strs(s, k - 1) + ", "@ + s[k - 1]@
    }
}

/// The text of an optional string, empty where there is none.
pub open spec fn opt_text(s: Option<String>) -> Seq<char> {
    match s {
        Some(t) => t@,
        None => Seq::empty(),
    }
}

/// The Dart text of an expression.
pub open spec fn expr_text(e: AstExpr) -> Seq<char>
    decreases e, 0int,
{
    match e {
        AstExpr::Literal(lit) => literal_text(lit),
        AstExpr::Variable(name) => name@,
        AstExpr::FieldAccess(recv, field) =>
            (if paren_tight(*recv) { "("@ + expr_text(*recv) + ")"@ } else { expr_text(*recv) }) + "."@ + field@,
        AstExpr::MethodCall { receiver, method, args, type_args } =>
            (match receiver {
                Some(r) => (if paren_tight(*r) { "("@ + expr_text(*r) + ")"@ } else { expr_text(*r) }) + "."@,
                None => Seq::empty(),
            }) + method@
            + (if type_args@.len() == 0 { Seq::empty() } else { "<"@ + join_strs(type_args@, type_args@.len() as int) + ">"@ })
            + "("@ + join_exprs(args@, args@.len() as int) + ")"@,
        AstExpr::BinaryOp(l, op, r) =>
            (if paren_left(op, *l) { "("@ + expr_text(*l) + ")"@ } else { expr_text(*l) })
            + " "@ + binop_text(op) + " "@
            + (if paren_right(op, *r) { "("@ + expr_text(*r) + ")"@ } else { expr_text(*r) }),
        AstExpr::UnaryOp(op, x) =>
            unop_text(op) + (if paren_tight(*x) { "("@ + expr_text(*x) + ")"@ } else { expr_text(*x) }),
        AstExpr::Conditional(c, t, f) => expr_text(*c) + " ? "@ + expr_text(*t) + " : "@ + expr_text(*f),
        AstExpr::IsCheck(x, t) =>
            (if paren_relational(*x) { "("@ + expr_text(*x) + ")"@ } else { expr_text(*x) }) + " is "@ + t@,
        AstExpr::AsCheck(x, t) =>
            (if paren_relational(*x) { "("@ + expr_text(*x) + ")"@ } else { expr_text(*x) }) + " as "@ + t@,
        AstExpr::NullAwareAccess(x, f) =>
            (if paren_tight(*x) { "("@ + expr_text(*x) + ")"@ } else { expr_text(*x) }) + "?."@ + f@,
        AstExpr::NullAssert(x) =>
            (if paren_tight(*x) { "("@ + expr_text(*x) + ")"@ } else { expr_text(*x) }) + "!"@,
        AstExpr::ListLiteral(items) => "["@ + join_exprs(items@, items@.len() as int) + "]"@,
        AstExpr::MapLiteral(entries) => "{"@ + join_entries(entries@, entries@.len() as int) + "}"@,
        AstExpr::RecordLiteral(pos, named) => "("@ + (
            if pos@.len() == 0 {
                join_named(named@, named@.len() as int)
            } else if named@.len() == 0 {
                join_exprs(pos@, pos@.len() as int)
            } else {
                join_exprs(pos@, pos@.len() as int) + ", "@ + join_named(named@, named@.len() as int)
            }
        ) + ")"@,
        AstExpr::Lambda { params, body } => "("@ + join_strs(params@, params@.len() as int) + ") => "@ + node_text(*body, 0),
        AstExpr::Cascade(obj, calls) => expr_text(*obj) + cascade_text(calls@, calls@.len() as int),
        AstExpr::StringInterpolation(parts) => "'"@ + interp_text(parts@, parts@.len() as int) + "'"@,
        AstExpr::IndexAccess(obj, idx) =>
            (if paren_tight(*obj) { "("@ + expr_text(*obj) + ")"@ } else { expr_text(*obj) }) + "["@ + expr_text(*idx) + "]"@,
        AstExpr::ConstructorCall { class_name, constructor_name, args } =>
            class_name@ + (match constructor_name {
                Some(n) => "."@ + n@,
                None => Seq::empty(),
            }) + "("@ + join_exprs(args@, args@.len() as int) + ")"@,
    }
}

/// The texts of the first `k` expressions joined with `, `.
pub open spec fn join_exprs(s: Seq<AstExpr>, k: int) -> Seq<char>
    decreases s, k,
{
    if k <= 0 || k > s.len() {
        Seq::empty()
    } else if k == 1 {
        expr_text(s[0])
    } else {
        join_exprs(s, k - 1) + ", "@ + expr_text(s[k - 1])
    }
}

/// The first `k` map entries as `key: value`, joined with `, `.
pub open spec fn join_entries(s: Seq<(AstExpr, AstExpr)>, k: int) -> Seq<char>
    decreases s, k,
{
    if k <= 0 || k > s.len() {
        Seq::empty()
    } else if k == 1 {
        expr_text(s[0].0) + ": "@ + expr_text(s[0].1)
    } else {
        join_entries(s, k - 1) + ", "@ + expr_text(s[k - 1].0) + ": "@ + expr_text(s[k - 1].1)
    }
}

/// The first `k` named record fields as `name: value`, joined with `, `.
pub open spec fn join_named(s: Seq<(String, AstExpr)>, k: int) -> Seq<char>
    decreases s, k,
{
    if k <= 0 || k > s.len() {
        Seq::empty()
    } else if k == 1 {
        s[0].0@ + ": "@ + expr_text(s[0].1)
    } else {
        join_named(s, k - 1) + ", "@ + s[k - 1].0@ + ": "@ + expr_text(s[k - 1].1)
    }
}

/// The first `k` cascade sections, each on a line of its own after `..`.
pub open spec fn cascade_text(s: Seq<AstExpr>, k: int) -> Seq<char>
    decreases s, k,
{
    if k <= 0 || k > s.len() {
        Seq::empty()
    } else {
        cascade_text(s, k - 1) + "\n  .."@ + expr_text(s[k - 1])
    }
}

/// The first `k` parts of an interpolated string.
pub open spec fn interp_text(s: Seq<StringPart>, k: int) -> Seq<char>
    decreases s, k,
{
    if k <= 0 || k > s.len() {
        Seq::empty()
    } else {
        interp_text(s, k - 1) + match s[k - 1] {
            StringPart::Literal(t) => t@,
            StringPart::Interpolation(x) => "${"@ + expr_text(x) + "}"@,
        }
    }
}

/// The Dart text of a statement at `indent` levels of indentation.
pub open spec fn node_text(n: AstNode, indent: nat) -> Seq<char>
    decreases n, 0int,
{
    let pad = pad_text(indent);
    match n {
        AstNode::Block(stmts) => join_nodes(stmts@, indent, stmts@.len() as int),
        AstNode::If { condition, then_body, else_body } =>
            pad + "if ("@ + expr_text(condition) + ") {\n"@ + node_text(*then_body, indent + 1) + "\n"@ + pad + "}"@
            + match else_body {
                Some(e) => " else {\n"@ + node_text(*e, indent + 1) + "\n"@ + pad + "}"@,
                None => Seq::empty(),
            },
        AstNode::While { condition, body } =>
            pad + "while ("@ + expr_text(condition) + ") {\n"@ + node_text(*body, indent + 1) + "\n"@ + pad + "}"@,
        AstNode::DoWhile { body, condition } =>
            pad + "do {\n"@ + node_text(*body, indent + 1) + "\n"@ + pad + "} while ("@ + expr_text(condition) + ");"@,
        AstNode::For { init, condition, update, body } =>
            pad + "for ("@ + trim_seq(node_text(*init, 0)) + "; "@ + expr_text(condition) + "; "@
            + trim_seq(node_text(*update, 0)) + ") {\n"@ + node_text(*body, indent + 1) + "\n"@ + pad + "}"@,
        AstNode::Switch { subject, cases, default } =>
            pad + "switch ("@ + expr_text(subject) + ") {\n"@ + cases_text(cases@, indent, cases@.len() as int)
            + match default {
                Some(d) => pad + "  default:\n"@ + node_text(*d, indent + 2) + "\n"@,
                None => Seq::empty(),
            } + pad + "}"@,
        AstNode::TryCatch { try_body, catches, finally_body } =>
            pad + "try {\n"@ + node_text(*try_body, indent + 1) + "\n"@ + pad + "}"@
            + catches_text(catches@, indent, catches@.len() as int)
            + match finally_body {
                Some(f) => " finally {\n"@ + node_text(*f, indent + 1) + "\n"@ + pad + "}"@,
                None => Seq::empty(),
            },
        AstNode::Return(Some(x)) => pad + "return "@ + expr_text(x) + ";"@,
        AstNode::Return(None) => pad + "return;"@,
        AstNode::Throw(x) => pad + "throw "@ + expr_text(x) + ";"@,
        AstNode::ExprStatement(x) => pad + expr_text(x) + ";"@,
        AstNode::VarDecl { name, dart_type, value, is_final, is_late } => {
            let prefix = if is_late { "late "@ } else { Seq::empty() };
            let ty = opt_text(dart_type);
            let kind = if is_final { "final "@ } else if ty.len() == 0 { "var "@ } else { Seq::empty() };
            let typed = if ty.len() == 0 { Seq::empty() } else { ty + " "@ };
            let val = match value {
                Some(v) => " = "@ + expr_text(v),
                None => Seq::empty(),
            };
            pad + prefix + kind + typed + name@ + val + ";"@
        },
        AstNode::Await(x) => pad + "await "@ + expr_text(x) + ";"@,
        AstNode::Yield(x) => pad + "yield "@ + expr_text(x) + ";"@,
        AstNode::YieldStar(x) => pad + "yield* "@ + expr_text(x) + ";"@,
        AstNode::Break => pad + "break;"@,
        AstNode::Continue => pad + "continue;"@,
    }
}

/// The texts of the first `k` statements, joined with line breaks.
pub open spec fn join_nodes(s: Seq<AstNode>, indent: nat, k: int) -> Seq<char>
    decreases s, k,
{
    if k <= 0 || k > s.len() {
        Seq::empty()
    } else if k == 1 {
        node_text(s[0], indent)
    } else {
        join_nodes(s, indent, k - 1) + "\n"@ + node_text(s[k - 1], indent)
    }
}

/// The first `k` cases of a `switch`, each ending with `break;`.
pub open spec fn cases_text(s: Seq<(AstExpr, AstNode)>, indent: nat, k: int) -> Seq<char>
    decreases s, k,
{
    if k <= 0 || k > s.len() {
        Seq::empty()
    } else {
        let pad = pad_text(indent);
        cases_text(s, indent, k - 1) + pad + "  case "@ + expr_text(s[k - 1].0) + ":\n"@
            + node_text(s[k - 1].1, indent + 2) + "\n"@ + pad + "    break;\n"@
    }
}

/// The first `k` `catch` clauses; an untyped one catches `dynamic`.
pub open spec fn catches_text(s: Seq<CatchClause>, indent: nat, k: int) -> Seq<char>
    decreases s, k,
{
    if k <= 0 || k > s.len() {
        Seq::empty()
    } else {
        let c = s[k - 1];
        catches_text(s, indent, k - 1) + " catch ("@
            + (match c.exception_type {
                Some(t) => t@,
                None => "dynamic"@,
            }) + " "@ + c.exception_var@ + ") {\n"@ + node_text(c.body, indent + 1) + "\n"@ + pad_text(indent) + "}"@
    }
}

} // verus!

verus! {

/// The number of statements and expressions in a statement, itself included.
pub open spec fn node_size(n: AstNode) -> nat
    decreases n, 0int,
{
    1 + match n {
        AstNode::Block(stmts) => nodes_size(stmts@, stmts@.len() as int),
        AstNode::If { condition, then_body, else_body } => expr_size(condition) + node_size(*then_body)
            + match else_body {
                Some(e) => node_size(*e),
                None => 0,
            },
        AstNode::While { condition, body } => expr_size(condition) + node_size(*body),
        AstNode::DoWhile { body, condition } => node_size(*body) + expr_size(condition),
        AstNode::For { init, condition, update, body } =>
            node_size(*init) + expr_size(condition) + node_size(*update) + node_size(*body),
        AstNode::Switch { subject, cases, default } => expr_size(subject) + cases_size(cases@, cases@.len() as int)
            + match default {
                Some(d) => node_size(*d),
                None => 0,
            },
        AstNode::TryCatch { try_body, catches, finally_body } => node_size(*try_body)
            + catches_size(catches@, catches@.len() as int) + match finally_body {
                Some(f) => node_size(*f),
                None => 0,
            },
        AstNode::Return(Some(x)) => expr_size(x),
        AstNode::Return(None) => 0,
        AstNode::Throw(x) => expr_size(x),
        AstNode::ExprStatement(x) => expr_size(x),
        AstNode::VarDecl { value, .. } => match value {
            Some(v) => expr_size(v),
            None => 0,
        },
        AstNode::Await(x) => expr_size(x),
        AstNode::Yield(x) => expr_size(x),
        AstNode::YieldStar(x) => expr_size(x),
        AstNode::Break => 0,
        AstNode::Continue => 0,
    }
}

/// The number of statements and expressions in an expression, itself included.
pub open spec fn expr_size(e: AstExpr) -> nat
    decreases e, 0int,
{
    1 + match e {
        AstExpr::Literal(_) => 0,
        AstExpr::Variable(_) => 0,
        AstExpr::FieldAccess(r, _) => expr_size(*r),
        AstExpr::MethodCall { receiver, args, .. } => (match receiver {
            Some(r) => expr_size(*r),
            None => 0,
        }) + exprs_size(args@, args@.len() as int),
        AstExpr::BinaryOp(l, _, r) => expr_size(*l) + expr_size(*r),
        AstExpr::UnaryOp(_, x) => expr_size(*x),
        AstExpr::Conditional(c, t, f) => expr_size(*c) + expr_size(*t) + expr_size(*f),
        AstExpr::IsCheck(x, _) => expr_size(*x),
        AstExpr::AsCheck(x, _) => expr_size(*x),
        AstExpr::NullAwareAccess(x, _) => expr_size(*x),
        AstExpr::NullAssert(x) => expr_size(*x),
        AstExpr::ListLiteral(items) => exprs_size(items@, items@.len() as int),
        AstExpr::MapLiteral(entries) => entries_size(entries@, entries@.len() as int),
        AstExpr::RecordLiteral(pos, named) => exprs_size(pos@, pos@.len() as int) + named_size(named@, named@.len() as int),
        AstExpr::Lambda { body, .. } => node_size(*body),
        AstExpr::Cascade(obj, calls) => expr_size(*obj) + exprs_size(calls@, calls@.len() as int),
        AstExpr::StringInterpolation(parts) => parts_size(parts@, parts@.len() as int),
        AstExpr::IndexAccess(o, i) => expr_size(*o) + expr_size(*i),
        AstExpr::ConstructorCall { args, .. } => exprs_size(args@, args@.len() as int),
    }
}

/// The sizes of the first `k` statements, summed.
pub open spec fn nodes_size(s: Seq<AstNode>, k: int) -> nat
    decreases s, k,
{
    if k <= 0 || k > s.len() { 0 } else { nodes_size(s, k - 1) + node_size(s[k - 1]) }
}

/// The sizes of the first `k` expressions, summed.
pub open spec fn exprs_size(s: Seq<AstExpr>, k: int) -> nat
    decreases s, k,
{
    if k <= 0 || k > s.len() { 0 } else { exprs_size(s, k - 1) + expr_size(s[k - 1]) }
}

/// The sizes of the first `k` map entries, summed.
pub open spec fn entries_size(s: Seq<(AstExpr, AstExpr)>, k: int) -> nat
    decreases s, k,
{
    if k <= 0 || k > s.len() { 0 } else { entries_size(s, k - 1) + expr_size(s[k - 1].0) + expr_size(s[k - 1].1) }
}

/// The sizes of the first `k` named record fields, summed.
pub open spec fn named_size(s: Seq<(String, AstExpr)>, k: int) -> nat
    decreases s, k,
{
    if k <= 0 || k > s.len() { 0 } else { named_size(s, k - 1) + expr_size(s[k - 1].1) }
}

/// The sizes of the first `k` string parts, summed.
pub open spec fn parts_size(s: Seq<StringPart>, k: int) -> nat
    decreases s, k,
{
    if k <= 0 || k > s.len() {
        0
    } else {
        parts_size(s, k - 1) + match s[k - 1] {
            StringPart::Literal(_) => 0,
            StringPart::Interpolation(x) => expr_size(x),
        }
    }
}

/// The sizes of the first `k` switch cases, summed.
pub open spec fn cases_size(s: Seq<(AstExpr, AstNode)>, k: int) -> nat
    decreases s, k,
{
    if k <= 0 || k > s.len() { 0 } else { cases_size(s, k - 1) + expr_size(s[k - 1].0) + node_size(s[k - 1].1) }
}

/// The sizes of the first `k` catch clauses, summed.
pub open spec fn catches_size(s: Seq<CatchClause>, k: int) -> nat
    decreases s, k,
{
    if k <= 0 || k > s.len() { 0 } else { catches_size(s, k - 1) + node_size(s[k - 1].body) }
}

} // verus!

verus! {

/// Each statement of a list is no larger than the list.
proof fn lemma_nodes_size_elem(s: Seq<AstNode>, k: int, i: int)
    requires
        0 <= i < k <= s.len(),
    ensures
        node_size(s[i]) <= nodes_size(s, k),
    decreases k,
{
    if i < k - 1 {
        lemma_nodes_size_elem(s, k - 1, i);
    }
}

/// Each expression of a list is no larger than the list.
proof fn lemma_exprs_size_elem(s: Seq<AstExpr>, k: int, i: int)
    requires
        0 <= i < k <= s.len(),
    ensures
        expr_size(s[i]) <= exprs_size(s, k),
    decreases k,
{
    if i < k - 1 {
        lemma_exprs_size_elem(s, k - 1, i);
    }
}

/// Each map entry is no larger than the list.
proof fn lemma_entries_size_elem(s: Seq<(AstExpr, AstExpr)>, k: int, i: int)
    requires
        0 <= i < k <= s.len(),
    ensures
        expr_size(s[i].0) + expr_size(s[i].1) <= entries_size(s, k),
    decreases k,
{
    if i < k - 1 {
        lemma_entries_size_elem(s, k - 1, i);
    }
}

/// Each named record field is no larger than the list.
proof fn lemma_named_size_elem(s: Seq<(String, AstExpr)>, k: int, i: int)
    requires
        0 <= i < k <= s.len(),
    ensures
        expr_size(s[i].1) <= named_size(s, k),
    decreases k,
{
    if i < k - 1 {
        lemma_named_size_elem(s, k - 1, i);
    }
}

/// Each interpolated part is no larger than the list.
proof fn lemma_parts_size_elem(s: Seq<StringPart>, k: int, i: int)
    requires
        0 <= i < k <= s.len(),
    ensures
        s[i] matches StringPart::Interpolation(x) ==> expr_size(x) <= parts_size(s, k),
    decreases k,
{
    if i < k - 1 {
        lemma_parts_size_elem(s, k - 1, i);
    }
}

/// Each switch case is no larger than the list.
proof fn lemma_cases_size_elem(s: Seq<(AstExpr, AstNode)>, k: int, i: int)
    requires
        0 <= i < k <= s.len(),
    ensures
        expr_size(s[i].0) + node_size(s[i].1) <= cases_size(s, k),
    decreases k,
{
    if i < k - 1 {
        lemma_cases_size_elem(s, k - 1, i);
    }
}

/// Each catch clause is no larger than the list.
proof fn lemma_catches_size_elem(s: Seq<CatchClause>, k: int, i: int)
    requires
        0 <= i < k <= s.len(),
    ensures
        node_size(s[i].body) <= catches_size(s, k),
    decreases k,
{
    if i < k - 1 {
        lemma_catches_size_elem(s, k - 1, i);
    }
}

/// Appends `n` levels of indentation.
fn push_pad(s: &mut String, n: usize)
    ensures
        final(s)@ == old(s)@ + pad_text(n as nat),
{
    let mut k: usize = 0;
    while k < n
        invariant
            k <= n,
            s@ == old(s)@ + pad_text(k as nat),
        decreases n - k,
    {
        crate::text::push_str(s, "  ");
        k = k + 1;
        assert(s@ =~= old(s)@ + pad_text(k as nat));
    }
}

/// Appends the strings of a list joined with `, `.
fn push_joined_strs(s: &mut String, v: &Vec<String>)
    ensures
        final(s)@ == old(s)@ + join_strs(v@, v@.len() as int),
{
    let mut i: usize = 0;
    while i < v.len()
        invariant
            0 <= i <= v@.len(),
            s@ == old(s)@ + join_strs(v@, i as int),
        decreases v@.len() - i,
    {
        if i > 0 {
            crate::text::push_str(s, ", ");
        }
        crate::text::push_str(s, v[i].as_str());
        i = i + 1;
        assert(s@ =~= old(s)@ + join_strs(v@, i as int));
    }
}

/// Appends the text of a binary operator.
fn push_binop(s: &mut String, op: BinOp)
    ensures
        final(s)@ == old(s)@ + binop_text(op),
{
    let t = match op {
        BinOp::Add => "+",
        BinOp::Sub => "-",
        BinOp::Mul => "*",
        BinOp::Div => "/",
        BinOp::Mod => "%",
        BinOp::Equal => "==",
        BinOp::NotEqual => "!=",
        BinOp::LessThan => "<",
        BinOp::GreaterThan => ">",
        BinOp::LessOrEqual => "<=",
        BinOp::GreaterOrEqual => ">=",
        BinOp::LogicalAnd => "&&",
        BinOp::LogicalOr => "||",
        BinOp::BitwiseAnd => "&",
        BinOp::BitwiseOr => "|",
        BinOp::BitwiseXor => "^",
        BinOp::ShiftLeft => "<<",
        BinOp::ShiftRight => ">>",
        BinOp::NullCoalesce => "??",
        BinOp::Assign => "=",
    };
    crate::text::push_str(s, t);
}

/// Appends the text of a unary operator.
fn push_unop(s: &mut String, op: UnaryOp)
    ensures
        final(s)@ == old(s)@ + unop_text(op),
{
    let t = match op {
        UnaryOp::Neg => "-",
        UnaryOp::Not => "!",
        UnaryOp::BitwiseNot => "~",
        UnaryOp::PreIncrement => "++",
        UnaryOp::PostIncrement => "++",
        UnaryOp::PreDecrement => "--",
        UnaryOp::PostDecrement => "--",
    };
    crate::text::push_str(s, t);
}

/// Appends the text of a literal.
fn push_literal(s: &mut String, lit: &DartLiteral)
    ensures
        final(s)@ == old(s)@ + literal_text(*lit),
{
    match lit {
        DartLiteral::Int(v) => crate::text::push_signed_decimal(s, *v),
        DartLiteral::Double(t) => crate::text::push_str(s, t.as_str()),
        DartLiteral::String(t) => {
            crate::text::push_str(s, "'");
            crate::text::push_escaped_quotes(s, t.as_str());
            crate::text::push_str(s, "'");
        },
        DartLiteral::Bool(b) => crate::text::push_str(s, if *b { "true" } else { "false" }),
        DartLiteral::Null => crate::text::push_str(s, "null"),
    }
}

} // verus!

verus! {

/// Appends the texts of a list of expressions joined with `, `.
fn push_exprs(s: &mut String, v: &Vec<AstExpr>)
    requires
        2 * exprs_size(v@, v@.len() as int) <= usize::MAX,
    ensures
        final(s)@ == old(s)@ + join_exprs(v@, v@.len() as int),
    decreases v@, 1int,
{
    let mut i: usize = 0;
    while i < v.len()
        invariant
            0 <= i <= v@.len(),
            2 * exprs_size(v@, v@.len() as int) <= usize::MAX,
            s@ == old(s)@ + join_exprs(v@, i as int),
        decreases v@.len() - i,
    {
        if i > 0 {
            crate::text::push_str(s, ", ");
        }
        proof {
            lemma_exprs_size_elem(v@, v@.len() as int, i as int);
        }
        push_expr(s, &v[i]);
        i = i + 1;
        assert(s@ =~= old(s)@ + join_exprs(v@, i as int));
    }
}

/// Appends map entries as `key: value`, joined with `, `.
fn push_entries(s: &mut String, v: &Vec<(AstExpr, AstExpr)>)
    requires
        2 * entries_size(v@, v@.len() as int) <= usize::MAX,
    ensures
        final(s)@ == old(s)@ + join_entries(v@, v@.len() as int),
    decreases v@, 1int,
{
    let mut i: usize = 0;
    while i < v.len()
        invariant
            0 <= i <= v@.len(),
            2 * entries_size(v@, v@.len() as int) <= usize::MAX,
            s@ == old(s)@ + join_entries(v@, i as int),
        decreases v@.len() - i,
    {
        if i > 0 {
            crate::text::push_str(s, ", ");
        }
        proof {
            lemma_entries_size_elem(v@, v@.len() as int, i as int);
        }
        push_expr(s, &v[i].0);
        crate::text::push_str(s, ": ");
        push_expr(s, &v[i].1);
        i = i + 1;
        assert(s@ =~= old(s)@ + join_entries(v@, i as int));
    }
}

/// Appends named record fields as `name: value`, joined with `, `, after a
/// separator where positional fields came first.
fn push_named(s: &mut String, after_pos: bool, v: &Vec<(String, AstExpr)>)
    requires
        2 * named_size(v@, v@.len() as int) <= usize::MAX,
    ensures
        final(s)@ == old(s)@ + (if after_pos && v@.len() > 0 { ", "@ } else { Seq::empty() })
            + join_named(v@, v@.len() as int),
    decreases v@, 1int,
{
    let mut i: usize = 0;
    while i < v.len()
        invariant
            0 <= i <= v@.len(),
            2 * named_size(v@, v@.len() as int) <= usize::MAX,
            s@ == old(s)@ + (if after_pos && i > 0 { ", "@ } else { Seq::empty() }) + join_named(v@, i as int),
        decreases v@.len() - i,
    {
        if i > 0 || after_pos {
            crate::text::push_str(s, ", ");
        }
        proof {
            lemma_named_size_elem(v@, v@.len() as int, i as int);
        }
        crate::text::push_str(s, v[i].0.as_str());
        crate::text::push_str(s, ": ");
        push_expr(s, &v[i].1);
        i = i + 1;
        assert(s@ =~= old(s)@ + (if after_pos && i > 0 { ", "@ } else { Seq::empty() }) + join_named(v@, i as int));
    }
}

/// Appends cascade sections, each on a line of its own after `..`.
fn push_cascade(s: &mut String, v: &Vec<AstExpr>)
    requires
        2 * exprs_size(v@, v@.len() as int) <= usize::MAX,
    ensures
        final(s)@ == old(s)@ + cascade_text(v@, v@.len() as int),
    decreases v@, 1int,
{
    let mut i: usize = 0;
    while i < v.len()
        invariant
            0 <= i <= v@.len(),
            2 * exprs_size(v@, v@.len() as int) <= usize::MAX,
            s@ == old(s)@ + cascade_text(v@, i as int),
        decreases v@.len() - i,
    {
        proof {
            lemma_exprs_size_elem(v@, v@.len() as int, i as int);
        }
        crate::text::push_str(s, "\n  ..");
        push_expr(s, &v[i]);
        i = i + 1;
        assert(s@ =~= old(s)@ + cascade_text(v@, i as int));
    }
}

/// Appends the parts of an interpolated string.
fn push_parts(s: &mut String, v: &Vec<StringPart>)
    requires
        2 * parts_size(v@, v@.len() as int) <= usize::MAX,
    ensures
        final(s)@ == old(s)@ + interp_text(v@, v@.len() as int),
    decreases v@, 1int,
{
    let mut i: usize = 0;
    while i < v.len()
        invariant
            0 <= i <= v@.len(),
            2 * parts_size(v@, v@.len() as int) <= usize::MAX,
            s@ == old(s)@ + interp_text(v@, i as int),
        decreases v@.len() - i,
    {
        proof {
            lemma_parts_size_elem(v@, v@.len() as int, i as int);
        }
        match &v[i] {
            StringPart::Literal(t) => crate::text::push_str(s, t.as_str()),
            StringPart::Interpolation(x) => {
                crate::text::push_str(s, "${");
                push_expr(s, x);
                crate::text::push_str(s, "}");
            },
        }
        i = i + 1;
        assert(s@ =~= old(s)@ + interp_text(v@, i as int));
    }
}

/// How tightly a binary operator binds.
fn binop_prec_of(op: BinOp) -> (p: u8)
    ensures
        p as int == binop_prec(op),
{
    match op {
        BinOp::Assign => 1,
        BinOp::NullCoalesce => 3,
        BinOp::LogicalOr => 4,
        BinOp::LogicalAnd => 5,
        BinOp::Equal | BinOp::NotEqual => 6,
        BinOp::LessThan | BinOp::GreaterThan | BinOp::LessOrEqual | BinOp::GreaterOrEqual => 7,
        BinOp::BitwiseOr => 8,
        BinOp::BitwiseXor => 9,
        BinOp::BitwiseAnd => 10,
        BinOp::ShiftLeft | BinOp::ShiftRight => 11,
        BinOp::Add | BinOp::Sub => 12,
        BinOp::Mul | BinOp::Div | BinOp::Mod => 13,
    }
}

/// How tightly an expression binds as an operand.
fn expr_prec_of(e: &AstExpr) -> (p: u8)
    ensures
        p as int == expr_prec(*e),
{
    match e {
        AstExpr::BinaryOp(_, op, _) => binop_prec_of(*op),
        AstExpr::Conditional(_, _, _) => 2,
        AstExpr::IsCheck(_, _) | AstExpr::AsCheck(_, _) => 7,
        AstExpr::Lambda { .. } | AstExpr::Cascade(_, _) => 0,
        _ => 20,
    }
}

/// Appends the text of an operand, in parentheses where it binds more
/// loosely than `min`.
fn push_operand(s: &mut String, e: &AstExpr, min: u8)
    requires
        2 * expr_size(*e) <= usize::MAX,
    ensures
        final(s)@ == old(s)@ + (if expr_prec(*e) < min { "("@ + expr_text(*e) + ")"@ } else { expr_text(*e) }),
    decreases *e, 2int,
{
    if expr_prec_of(e) < min {
        crate::text::push_str(s, "(");
        push_expr(s, e);
        crate::text::push_str(s, ")");
    } else {
        push_expr(s, e);
    }
}

/// Appends the text of a binary operation, each operand in parentheses
/// where it would otherwise group differently.
fn push_binary(s: &mut String, e: &AstExpr)
    requires
        e is BinaryOp,
        2 * expr_size(*e) <= usize::MAX,
    ensures
        final(s)@ == old(s)@ + expr_text(*e),
    decreases *e, 0int,
{
    match e {
        AstExpr::BinaryOp(l, op, r) => {
            let p = binop_prec_of(*op);
            let grouped_left = p == 1 || p == 6 || p == 7;
            let lmin = if grouped_left { p + 1 } else { p };
            let rmin = if p != 1 { p + 1 } else { p };
            proof {
                assert(paren_left(*op, **l) == (expr_prec(**l) < lmin));
                assert(paren_right(*op, **r) == (expr_prec(**r) < rmin));
            }
            let ghost s0 = s@;
            push_operand(s, l, lmin);
            crate::text::push_str(s, " ");
            push_binop(s, *op);
            crate::text::push_str(s, " ");
            push_operand(s, r, rmin);
            assert(s@ =~= s0 + expr_text(*e));
        },
        _ => {},
    }
}

/// Appends the text of an expression built on an operand: member access,
/// method call, unary operator, `is`, `as`, `!` or index, the operand in
/// parentheses where it is an operation of its own.
#[verifier::rlimit(60)]
fn push_postfix(s: &mut String, e: &AstExpr)
    requires
        e is FieldAccess || e is MethodCall || e is UnaryOp || e is IsCheck || e is AsCheck
            || e is NullAwareAccess || e is NullAssert || e is IndexAccess,
        2 * expr_size(*e) <= usize::MAX,
    ensures
        final(s)@ == old(s)@ + expr_text(*e),
    decreases *e, 0int,
{
    match e {
        AstExpr::FieldAccess(recv, field) => {
            push_operand(s, recv, 20);
            crate::text::push_str(s, ".");
            crate::text::push_str(s, field.as_str());
        },
        AstExpr::MethodCall { receiver, method, args, type_args } => {
            match receiver {
                Some(r) => {
                    push_operand(s, r, 20);
                    crate::text::push_str(s, ".");
                },
                None => {},
            }
            crate::text::push_str(s, method.as_str());
            if type_args.len() > 0 {
                crate::text::push_str(s, "<");
                push_joined_strs(s, type_args);
                crate::text::push_str(s, ">");
            }
            crate::text::push_str(s, "(");
            push_exprs(s, args);
            crate::text::push_str(s, ")");
        },
        AstExpr::UnaryOp(op, x) => {
            push_unop(s, *op);
            push_operand(s, x, 20);
        },
        AstExpr::IsCheck(x, t) => {
            push_operand(s, x, 8);
            crate::text::push_str(s, " is ");
            crate::text::push_str(s, t.as_str());
        },
        AstExpr::AsCheck(x, t) => {
            push_operand(s, x, 8);
            crate::text::push_str(s, " as ");
            crate::text::push_str(s, t.as_str());
        },
        AstExpr::NullAwareAccess(x, f) => {
            push_operand(s, x, 20);
            crate::text::push_str(s, "?.");
            crate::text::push_str(s, f.as_str());
        },
        AstExpr::NullAssert(x) => {
            push_operand(s, x, 20);
            crate::text::push_str(s, "!");
        },
        AstExpr::IndexAccess(obj, idx) => {
            push_operand(s, obj, 20);
            crate::text::push_str(s, "[");
            push_expr(s, idx);
            crate::text::push_str(s, "]");
        },
        _ => {},
    }
}

/// Appends the Dart text of an expression.
#[verifier::rlimit(100)]
fn push_expr(s: &mut String, e: &AstExpr)
    requires
        2 * expr_size(*e) <= usize::MAX,
    ensures
        final(s)@ == old(s)@ + expr_text(*e),
    decreases *e, 1int,
{
    match e {
        AstExpr::Literal(lit) => push_literal(s, lit),
        AstExpr::Variable(name) => crate::text::push_str(s, name.as_str()),
        AstExpr::BinaryOp(..) => push_binary(s, e),
        AstExpr::FieldAccess(..) | AstExpr::MethodCall { .. } | AstExpr::UnaryOp(..) | AstExpr::IsCheck(..)
        | AstExpr::AsCheck(..) | AstExpr::NullAwareAccess(..) | AstExpr::NullAssert(..) | AstExpr::IndexAccess(..) =>
            push_postfix(s, e),
        AstExpr::Conditional(c, t, f) => {
            push_expr(s, c);
            crate::text::push_str(s, " ? ");
            push_expr(s, t);
            crate::text::push_str(s, " : ");
            push_expr(s, f);
        },
        AstExpr::ListLiteral(items) => {
            crate::text::push_str(s, "[");
            push_exprs(s, items);
            crate::text::push_str(s, "]");
        },
        AstExpr::MapLiteral(entries) => {
            crate::text::push_str(s, "{");
            push_entries(s, entries);
            crate::text::push_str(s, "}");
        },
        AstExpr::RecordLiteral(pos, named) => {
            crate::text::push_str(s, "(");
            push_exprs(s, pos);
            push_named(s, pos.len() > 0, named);
            crate::text::push_str(s, ")");
        },
        AstExpr::Lambda { params, body } => {
            crate::text::push_str(s, "(");
            push_joined_strs(s, params);
            crate::text::push_str(s, ") => ");
            push_node(s, body, 0);
        },
        AstExpr::Cascade(obj, calls) => {
            push_expr(s, obj);
            push_cascade(s, calls);
        },
        AstExpr::StringInterpolation(parts) => {
            crate::text::push_str(s, "'");
            push_parts(s, parts);
            crate::text::push_str(s, "'");
        },
        AstExpr::ConstructorCall { class_name, constructor_name, args } => {
            crate::text::push_str(s, class_name.as_str());
            match constructor_name {
                Some(n) => {
                    crate::text::push_str(s, ".");
                    crate::text::push_str(s, n.as_str());
                },
                None => {},
            }
            crate::text::push_str(s, "(");
            push_exprs(s, args);
            crate::text::push_str(s, ")");
        },
    }
    assert(s@ =~= old(s)@ + expr_text(*e));
}

/// Appends statements joined with line breaks.
fn push_nodes(s: &mut String, v: &Vec<AstNode>, indent: usize)
    requires
        indent + 2 * nodes_size(v@, v@.len() as int) <= usize::MAX,
    ensures
        final(s)@ == old(s)@ + join_nodes(v@, indent as nat, v@.len() as int),
    decreases v@, 1int,
{
    let mut i: usize = 0;
    while i < v.len()
        invariant
            0 <= i <= v@.len(),
            indent + 2 * nodes_size(v@, v@.len() as int) <= usize::MAX,
            s@ == old(s)@ + join_nodes(v@, indent as nat, i as int),
        decreases v@.len() - i,
    {
        if i > 0 {
            crate::text::push_str(s, "\n");
        }
        proof {
            lemma_nodes_size_elem(v@, v@.len() as int, i as int);
        }
        push_node(s, &v[i], indent);
        i = i + 1;
        assert(s@ =~= old(s)@ + join_nodes(v@, indent as nat, i as int));
    }
}

/// Appends the cases of a `switch`.
fn push_cases(s: &mut String, v: &Vec<(AstExpr, AstNode)>, indent: usize)
    requires
        indent + 2 * cases_size(v@, v@.len() as int) + 2 <= usize::MAX,
    ensures
        final(s)@ == old(s)@ + cases_text(v@, indent as nat, v@.len() as int),
    decreases v@, 1int,
{
    let mut i: usize = 0;
    while i < v.len()
        invariant
            0 <= i <= v@.len(),
            indent + 2 * cases_size(v@, v@.len() as int) + 2 <= usize::MAX,
            s@ == old(s)@ + cases_text(v@, indent as nat, i as int),
        decreases v@.len() - i,
    {
        proof {
            lemma_cases_size_elem(v@, v@.len() as int, i as int);
        }
        push_pad(s, indent);
        crate::text::push_str(s, "  case ");
        push_expr(s, &v[i].0);
        crate::text::push_str(s, ":\n");
        push_node(s, &v[i].1, indent + 2);
        crate::text::push_str(s, "\n");
        push_pad(s, indent);
        crate::text::push_str(s, "    break;\n");
        i = i + 1;
        assert(s@ =~= old(s)@ + cases_text(v@, indent as nat, i as int));
    }
}

/// Appends the `catch` clauses of a `try`.
fn push_catches(s: &mut String, v: &Vec<CatchClause>, indent: usize)
    requires
        indent + 2 * catches_size(v@, v@.len() as int) + 1 <= usize::MAX,
    ensures
        final(s)@ == old(s)@ + catches_text(v@, indent as nat, v@.len() as int),
    decreases v@, 1int,
{
    let mut i: usize = 0;
    while i < v.len()
        invariant
            0 <= i <= v@.len(),
            indent + 2 * catches_size(v@, v@.len() as int) + 1 <= usize::MAX,
            s@ == old(s)@ + catches_text(v@, indent as nat, i as int),
        decreases v@.len() - i,
    {
        proof {
            lemma_catches_size_elem(v@, v@.len() as int, i as int);
        }
        let c = &v[i];
        let ghost before = s@;
        crate::text::push_str(s, " catch (");
        match &c.exception_type {
            Some(t) => crate::text::push_str(s, t.as_str()),
            None => crate::text::push_str(s, "dynamic"),
        }
        crate::text::push_str(s, " ");
        crate::text::push_str(s, c.exception_var.as_str());
        crate::text::push_str(s, ") {\n");
        push_node(s, &c.body, indent + 1);
        crate::text::push_str(s, "\n");
        push_pad(s, indent);
        crate::text::push_str(s, "}");
        proof {
            assert(*c == v@[i as int]);
            assert(s@ =~= before + " catch ("@ + (match c.exception_type {
                Some(t) => t@,
                None => "dynamic"@,
            }) + " "@ + c.exception_var@ + ") {\n"@ + node_text(c.body, indent as nat + 1) + "\n"@
                + pad_text(indent as nat) + "}"@);
        }
        i = i + 1;
        assert(s@ =~= old(s)@ + catches_text(v@, indent as nat, i as int));
    }
}

/// Appends the trimmed text of a statement at no indentation.
fn push_trimmed_node(s: &mut String, n: &AstNode)
    requires
        2 * node_size(*n) <= usize::MAX,
    ensures
        final(s)@ == old(s)@ + trim_seq(node_text(*n, 0)),
    decreases *n, 2int,
{
    let mut t = String::new();
    push_node(&mut t, n, 0);
    assert(t@ =~= node_text(*n, 0));
    let tt = crate::text::trim_text(t.as_str());
    crate::text::push_str(s, tt.as_str());
}

/// Appends a line that is an expression between a keyword and `;`.
fn push_expr_line(s: &mut String, indent: usize, keyword: &str, x: &AstExpr)
    requires
        2 * expr_size(*x) <= usize::MAX,
    ensures
        final(s)@ == old(s)@ + pad_text(indent as nat) + keyword@ + expr_text(*x) + ";"@,
    decreases *x, 2int,
{
    push_pad(s, indent);
    crate::text::push_str(s, keyword);
    push_expr(s, x);
    crate::text::push_str(s, ";");
    assert(s@ =~= old(s)@ + pad_text(indent as nat) + keyword@ + expr_text(*x) + ";"@);
}

/// Appends an `if` statement.
#[verifier::rlimit(100)]
fn push_if_node(s: &mut String, n: &AstNode, indent: usize)
    requires
        n is If,
        indent + 2 * node_size(*n) <= usize::MAX,
    ensures
        final(s)@ == old(s)@ + node_text(*n, indent as nat),
    decreases *n, 0int,
{
    match n {
        AstNode::If { condition, then_body, else_body } => {
            push_pad(s, indent);
            crate::text::push_str(s, "if (");
            push_expr(s, condition);
            crate::text::push_str(s, ") {\n");
            push_node(s, then_body, indent + 1);
            crate::text::push_str(s, "\n");
            push_pad(s, indent);
            crate::text::push_str(s, "}");
            let ghost mid = s@;
            match else_body {
                Some(e) => {
                    crate::text::push_str(s, " else {\n");
                    push_node(s, e, indent + 1);
                    crate::text::push_str(s, "\n");
                    push_pad(s, indent);
                    crate::text::push_str(s, "}");
                },
                None => {
                    assert(s@ =~= mid + Seq::<char>::empty());
                },
            }
        },
        _ => {},
    }
    assert(s@ =~= old(s)@ + node_text(*n, indent as nat));
}

/// Appends a `for` statement.
fn push_for_node(s: &mut String, n: &AstNode, indent: usize)
    requires
        n is For,
        indent + 2 * node_size(*n) <= usize::MAX,
    ensures
        final(s)@ == old(s)@ + node_text(*n, indent as nat),
    decreases *n, 0int,
{
    match n {
        AstNode::For { init, condition, update, body } => {
            push_pad(s, indent);
            crate::text::push_str(s, "for (");
            push_trimmed_node(s, init);
            crate::text::push_str(s, "; ");
            push_expr(s, condition);
            crate::text::push_str(s, "; ");
            push_trimmed_node(s, update);
            crate::text::push_str(s, ") {\n");
            push_node(s, body, indent + 1);
            crate::text::push_str(s, "\n");
            push_pad(s, indent);
            crate::text::push_str(s, "}");
        },
        _ => {},
    }
    assert(s@ =~= old(s)@ + node_text(*n, indent as nat));
}

/// Appends a `switch` statement.
fn push_switch_node(s: &mut String, n: &AstNode, indent: usize)
    requires
        n is Switch,
        indent + 2 * node_size(*n) <= usize::MAX,
    ensures
        final(s)@ == old(s)@ + node_text(*n, indent as nat),
    decreases *n, 0int,
{
    match n {
        AstNode::Switch { subject, cases, default } => {
            push_pad(s, indent);
            crate::text::push_str(s, "switch (");
            push_expr(s, subject);
            crate::text::push_str(s, ") {\n");
            push_cases(s, cases, indent);
            let ghost mid = s@;
            match default {
                Some(d) => {
                    push_pad(s, indent);
                    crate::text::push_str(s, "  default:\n");
                    push_node(s, d, indent + 2);
                    crate::text::push_str(s, "\n");
                },
                None => {
                    assert(s@ =~= mid + Seq::<char>::empty());
                },
            }
            push_pad(s, indent);
            crate::text::push_str(s, "}");
        },
        _ => {},
    }
    assert(s@ =~= old(s)@ + node_text(*n, indent as nat));
}

/// Appends a `try` statement.
#[verifier::rlimit(100)]
fn push_try_node(s: &mut String, n: &AstNode, indent: usize)
    requires
        n is TryCatch,
        indent + 2 * node_size(*n) <= usize::MAX,
    ensures
        final(s)@ == old(s)@ + node_text(*n, indent as nat),
    decreases *n, 0int,
{
    match n {
        AstNode::TryCatch { try_body, catches, finally_body } => {
            push_pad(s, indent);
            crate::text::push_str(s, "try {\n");
            push_node(s, try_body, indent + 1);
            crate::text::push_str(s, "\n");
            push_pad(s, indent);
            crate::text::push_str(s, "}");
            push_catches(s, catches, indent);
            push_finally(s, finally_body, indent);
        },
        _ => {},
    }
    assert(s@ =~= old(s)@ + node_text(*n, indent as nat));
}

/// Appends the `finally` clause of a `try`, if it has one.
fn push_finally(s: &mut String, f: &Option<Box<AstNode>>, indent: usize)
    requires
        f matches Some(b) ==> indent + 1 + 2 * node_size(**b) <= usize::MAX,
    ensures
        final(s)@ == old(s)@ + match *f {
            Some(b) => " finally {\n"@ + node_text(*b, indent as nat + 1) + "\n"@ + pad_text(indent as nat) + "}"@,
            None => Seq::empty(),
        },
    decreases *f, 0int,
{
    match f {
        Some(b) => {
            crate::text::push_str(s, " finally {\n");
            push_node(s, b, indent + 1);
            crate::text::push_str(s, "\n");
            push_pad(s, indent);
            crate::text::push_str(s, "}");
            assert(s@ =~= old(s)@ + " finally {\n"@ + node_text(**b, indent as nat + 1) + "\n"@
                + pad_text(indent as nat) + "}"@);
        },
        None => {
            assert(s@ =~= old(s)@ + Seq::<char>::empty());
        },
    }
}

/// Appends a variable declaration.
#[verifier::rlimit(100)]
fn push_var_decl(s: &mut String, n: &AstNode, indent: usize)
    requires
        n is VarDecl,
        indent + 2 * node_size(*n) <= usize::MAX,
    ensures
        final(s)@ == old(s)@ + node_text(*n, indent as nat),
    decreases *n, 0int,
{
    proof {
        reveal_strlit("");
    }
    match n {
        AstNode::VarDecl { name, dart_type, value, is_final, is_late } => {
            push_pad(s, indent);
            let ghost a = s@;
            if *is_late {
                crate::text::push_str(s, "late ");
            }
            let ghost b = s@;
            assert(b == a + (if *is_late { "late "@ } else { Seq::<char>::empty() }));
            let typed = match dart_type {
                Some(t) => t.as_str().unicode_len() > 0,
                None => false,
            };
            proof {
                assert(typed == (opt_text(*dart_type).len() > 0));
            }
            if *is_final {
                crate::text::push_str(s, "final ");
            } else if !typed {
                crate::text::push_str(s, "var ");
            }
            let ghost c = s@;
            assert(c == b + (if *is_final { "final "@ } else if !typed { "var "@ } else { Seq::<char>::empty() }));
            if typed {
                match dart_type {
                    Some(t) => crate::text::push_str(s, t.as_str()),
                    None => {},
                }
                crate::text::push_str(s, " ");
            }
            let ghost c2 = s@;
            assert(c2 == c + (if typed { opt_text(*dart_type) + " "@ } else { Seq::<char>::empty() }));
            crate::text::push_str(s, name.as_str());
            let ghost d = s@;
            match value {
                Some(v) => {
                    crate::text::push_str(s, " = ");
                    push_expr(s, v);
                },
                None => {},
            }
            let ghost e = s@;
            assert(e == d + match *value {
                Some(v) => " = "@ + expr_text(v),
                None => Seq::<char>::empty(),
            }) by {
                if value.is_none() {
                    assert(e =~= d + Seq::<char>::empty());
                }
            }
            crate::text::push_str(s, ";");
        },
        _ => {},
    }
    assert(s@ =~= old(s)@ + node_text(*n, indent as nat));
}

/// Appends the Dart text of a statement at `indent` levels of indentation.
fn push_node(s: &mut String, n: &AstNode, indent: usize)
    requires
        indent + 2 * node_size(*n) <= usize::MAX,
    ensures
        final(s)@ == old(s)@ + node_text(*n, indent as nat),
    decreases *n, 1int,
{
    match n {
        AstNode::Block(stmts) => push_nodes(s, stmts, indent),
        AstNode::If { .. } => push_if_node(s, n, indent),
        AstNode::While { condition, body } => {
            push_pad(s, indent);
            crate::text::push_str(s, "while (");
            push_expr(s, condition);
            crate::text::push_str(s, ") {\n");
            push_node(s, body, indent + 1);
            crate::text::push_str(s, "\n");
            push_pad(s, indent);
            crate::text::push_str(s, "}");
        },
        AstNode::DoWhile { body, condition } => {
            push_pad(s, indent);
            crate::text::push_str(s, "do {\n");
            push_node(s, body, indent + 1);
            crate::text::push_str(s, "\n");
            push_pad(s, indent);
            crate::text::push_str(s, "} while (");
            push_expr(s, condition);
            crate::text::push_str(s, ");");
        },
        AstNode::For { .. } => push_for_node(s, n, indent),
        AstNode::Switch { .. } => push_switch_node(s, n, indent),
        AstNode::TryCatch { .. } => push_try_node(s, n, indent),
        AstNode::Return(Some(x)) => push_expr_line(s, indent, "return ", x),
        AstNode::Return(None) => {
            push_pad(s, indent);
            crate::text::push_str(s, "return;");
        },
        AstNode::Throw(x) => push_expr_line(s, indent, "throw ", x),
        AstNode::ExprStatement(x) => push_expr_line(s, indent, "", x),
        AstNode::VarDecl { .. } => push_var_decl(s, n, indent),
        AstNode::Await(x) => push_expr_line(s, indent, "await ", x),
        AstNode::Yield(x) => push_expr_line(s, indent, "yield ", x),
        AstNode::YieldStar(x) => push_expr_line(s, indent, "yield* ", x),
        AstNode::Break => {
            push_pad(s, indent);
            crate::text::push_str(s, "break;");
        },
        AstNode::Continue => {
            push_pad(s, indent);
            crate::text::push_str(s, "continue;");
        },
    }
    proof {
        reveal_strlit("");
    }
    assert(s@ =~= old(s)@ + node_text(*n, indent as nat));
}

/// Generate Dart code from an AST node at `indent` levels of two-space
/// indentation. The indentation of the deepest statement must fit in a `usize`.
pub fn generate_dart_code(node: &AstNode, indent: usize) -> (code: String)
    requires
        indent + 2 * node_size(*node) <= usize::MAX,
    ensures
        code@ == node_text(*node, indent as nat),
{
    let mut s = String::new();
    push_node(&mut s, node, indent);
    assert(s@ =~= node_text(*node, indent as nat));
    s
}

/// The Dart text of an expression.
pub fn expr_to_dart(expr: &AstExpr) -> (code: String)
    requires
        2 * expr_size(*expr) <= usize::MAX,
    ensures
        code@ == expr_text(*expr),
{
    let mut s = String::new();
    push_expr(&mut s, expr);
    assert(s@ =~= expr_text(*expr));
    s
}

/// The Dart token each operator is read back from.
spec fn token_op(t: Seq<char>) -> Option<BinOp> {
    if t.len() == 1 {
        if t[0] == '+' { Some(BinOp::Add) }
        else if t[0] == '-' { Some(BinOp::Sub) }
        else if t[0] == '*' { Some(BinOp::Mul) }
        else if t[0] == '/' { Some(BinOp::Div) }
        else if t[0] == '%' { Some(BinOp::Mod) }
        else if t[0] == '<' { Some(BinOp::LessThan) }
        else if t[0] == '>' { Some(BinOp::GreaterThan) }
        else if t[0] == '&' { Some(BinOp::BitwiseAnd) }
        else if t[0] == '|' { Some(BinOp::BitwiseOr) }
        else if t[0] == '^' { Some(BinOp::BitwiseXor) }
        else if t[0] == '=' { Some(BinOp::Assign) }
        else { None }
    } else if t.len() == 2 && t[1] == '=' {
        if t[0] == '=' { Some(BinOp::Equal) }
        else if t[0] == '!' { Some(BinOp::NotEqual) }
        else if t[0] == '<' { Some(BinOp::LessOrEqual) }
        else if t[0] == '>' { Some(BinOp::GreaterOrEqual) }
        else { None }
    } else if t.len() == 2 && t[0] == t[1] {
        if t[0] == '&' { Some(BinOp::LogicalAnd) }
        else if t[0] == '|' { Some(BinOp::LogicalOr) }
        else if t[0] == '<' { Some(BinOp::ShiftLeft) }
        else if t[0] == '>' { Some(BinOp::ShiftRight) }
        else if t[0] == '?' { Some(BinOp::NullCoalesce) }
        else { None }
    } else {
        None
    }
}

proof fn lemma_token_op(op: BinOp)
    ensures
        token_op(binop_text(op)) == Some(op),
{
    reveal_strlit("+");
    reveal_strlit("-");
    reveal_strlit("*");
    reveal_strlit("/");
    reveal_strlit("%");
    reveal_strlit("==");
    reveal_strlit("!=");
    reveal_strlit("<");
    reveal_strlit(">");
    reveal_strlit("<=");
    reveal_strlit(">=");
    reveal_strlit("&&");
    reveal_strlit("||");
    reveal_strlit("&");
    reveal_strlit("|");
    reveal_strlit("^");
    reveal_strlit("<<");
    reveal_strlit(">>");
    reveal_strlit("??");
    reveal_strlit("=");
    match op {
        BinOp::Add => {
            assert(token_op(binop_text(op)) == Some(BinOp::Add));
        },
        BinOp::Sub => {
            assert(token_op(binop_text(op)) == Some(BinOp::Sub));
        },
        BinOp::Mul => {
            assert(token_op(binop_text(op)) == Some(BinOp::Mul));
        },
        BinOp::Div => {
            assert(token_op(binop_text(op)) == Some(BinOp::Div));
        },
        BinOp::Mod => {
            assert(token_op(binop_text(op)) == Some(BinOp::Mod));
        },
        BinOp::Equal => {
            assert(token_op(binop_text(op)) == Some(BinOp::Equal));
        },
        BinOp::NotEqual => {
            assert(token_op(binop_text(op)) == Some(BinOp::NotEqual));
        },
        BinOp::LessThan => {
            assert(token_op(binop_text(op)) == Some(BinOp::LessThan));
        },
        BinOp::GreaterThan => {
            assert(token_op(binop_text(op)) == Some(BinOp::GreaterThan));
        },
        BinOp::LessOrEqual => {
            assert(token_op(binop_text(op)) == Some(BinOp::LessOrEqual));
        },
        BinOp::GreaterOrEqual => {
            assert(token_op(binop_text(op)) == Some(BinOp::GreaterOrEqual));
        },
        BinOp::LogicalAnd => {
            assert(token_op(binop_text(op)) == Some(BinOp::LogicalAnd));
        },
        BinOp::LogicalOr => {
            assert(token_op(binop_text(op)) == Some(BinOp::LogicalOr));
        },
        BinOp::BitwiseAnd => {
            assert(token_op(binop_text(op)) == Some(BinOp::BitwiseAnd));
        },
        BinOp::BitwiseOr => {
            assert(token_op(binop_text(op)) == Some(BinOp::BitwiseOr));
        },
        BinOp::BitwiseXor => {
            assert(token_op(binop_text(op)) == Some(BinOp::BitwiseXor));
        },
        BinOp::ShiftLeft => {
            assert(token_op(binop_text(op)) == Some(BinOp::ShiftLeft));
        },
        BinOp::ShiftRight => {
            assert(token_op(binop_text(op)) == Some(BinOp::ShiftRight));
        },
        BinOp::NullCoalesce => {
            assert(token_op(binop_text(op)) == Some(BinOp::NullCoalesce));
        },
        BinOp::Assign => {
            assert(token_op(binop_text(op)) == Some(BinOp::Assign));
        },
    }
}

/// Distinct operators print as distinct Dart tokens; in particular `!=` and
/// `==` are the inequality and the equality, so a printed comparison cannot
/// be read as the other one.
pub proof fn law_binop_text_injective(a: BinOp, b: BinOp)
    ensures
        binop_text(a) == binop_text(b) ==> a == b,
        binop_text(BinOp::NotEqual) == "!="@,
        binop_text(BinOp::Equal) == "=="@,
        binop_text(BinOp::NotEqual) != binop_text(BinOp::Equal),
{
    lemma_token_op(a);
    lemma_token_op(b);
    lemma_token_op(BinOp::NotEqual);
    lemma_token_op(BinOp::Equal);
}

/// The printed form of `x op y`, for two variables, tells which operator it
/// applies: two operators that print the same are the same.
pub proof fn law_binary_text_determines_operator(x: String, y: String, a: BinOp, b: BinOp)
    ensures
        expr_text(AstExpr::BinaryOp(Box::new(AstExpr::Variable(x)), a, Box::new(AstExpr::Variable(y))))
            == expr_text(AstExpr::BinaryOp(Box::new(AstExpr::Variable(x)), b, Box::new(AstExpr::Variable(y))))
            ==> a == b,
{
    let ea = AstExpr::BinaryOp(Box::new(AstExpr::Variable(x)), a, Box::new(AstExpr::Variable(y)));
    let eb = AstExpr::BinaryOp(Box::new(AstExpr::Variable(x)), b, Box::new(AstExpr::Variable(y)));
    assert(!paren_left(a, AstExpr::Variable(x)) && !paren_right(a, AstExpr::Variable(y)));
    assert(!paren_left(b, AstExpr::Variable(x)) && !paren_right(b, AstExpr::Variable(y)));
    let ta = binop_text(a);
    let tb = binop_text(b);
    assert(expr_text(AstExpr::Variable(x)) == x@);
    assert(expr_text(AstExpr::Variable(y)) == y@);
    assert(expr_text(ea) == x@ + " "@ + ta + " "@ + y@);
    assert(expr_text(eb) == x@ + " "@ + tb + " "@ + y@);
    reveal_strlit(" ");
    if expr_text(ea) == expr_text(eb) {
        let k: int = (x@.len() + " "@.len()) as int;
        assert(ta.len() == tb.len());
        assert(ta =~= expr_text(ea).subrange(k, k + ta.len() as int));
        assert(tb =~= expr_text(eb).subrange(k, k + tb.len() as int));
        law_binop_text_injective(a, b);
    }
}

} // verus!
