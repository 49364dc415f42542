//! The platform-independent intermediate representation (IR).

use vstd::prelude::*;
use crate::snapshot::SnapshotAddr;
use crate::text::{decimal_seq, owned, push_decimal};

verus! {

/// Abstract register (not tied to any architecture).
#[derive(Debug, Clone, Copy, Hash, Eq, PartialEq, Structural)]
pub struct Reg(pub u16);

/// The display text of a register: `r` and its number.
pub open spec fn reg_text(r: Reg) -> Seq<char> {
    "r"@ + decimal_seq(r.0 as nat)
}

impl Reg {
    /// The display text, e.g. `r27`.
    pub fn display(&self) -> (s: String)
        ensures
            s@ == reg_text(*self),
    {
        let mut s = owned("r");
        push_decimal(&mut s, self.0 as u64);
        s
    }
}

/// Block identifier for CFG.
pub type BlockId = u32;

/// IR Operand.
#[derive(Debug, Clone)]
pub enum Operand {
    Reg(Reg),
    Imm(i64),
    PoolObject(SnapshotAddr),
    StackSlot(i32),
    FieldAccess { base: Reg, offset: u32, field_name: Option<String> },
}

/// Branch condition.
#[derive(Debug, Clone)]
pub enum Condition {
    Equal,
    NotEqual,
    LessThan,
    GreaterThan,
    LessOrEqual,
    GreaterOrEqual,
    True(Reg),
    False(Reg),
    TypeCheck(Reg, DartTypeRef),
}

/// Type of function call.
#[derive(Debug, Clone)]
pub enum CallKind {
    Direct(SnapshotAddr),
    Virtual(u32),
    DynamicDispatch(String),
    Stub(StubCallKind),
    Closure(Reg),
}

/// Dart VM stub call types.
#[derive(Debug, Clone, Copy, PartialEq, Eq, Hash, Structural)]
pub enum StubCallKind {
    AllocateObject,
    AllocateArray,
    InstanceOf,
    ThrowException,
    NullCheck,
    RangeCheck,
    StackOverflowCheck,
    WriteBarrier,
    DeoptimizeLazyFromReturn,
    DeoptimizeLazyFromThrow,
    SubtypeCheck,
    AssertAssignable,
}

/// The variant name of a stub call kind, as `Debug` writes it.
pub open spec fn stub_call_name(k: StubCallKind) -> Seq<char> {
    match k {
        StubCallKind::AllocateObject => "AllocateObject"@,
        StubCallKind::AllocateArray => "AllocateArray"@,
        StubCallKind::InstanceOf => "InstanceOf"@,
        StubCallKind::ThrowException => "ThrowException"@,
        StubCallKind::NullCheck => "NullCheck"@,
        StubCallKind::RangeCheck => "RangeCheck"@,
        StubCallKind::StackOverflowCheck => "StackOverflowCheck"@,
        StubCallKind::WriteBarrier => "WriteBarrier"@,
        StubCallKind::DeoptimizeLazyFromReturn => "DeoptimizeLazyFromReturn"@,
        StubCallKind::DeoptimizeLazyFromThrow => "DeoptimizeLazyFromThrow"@,
        StubCallKind::SubtypeCheck => "SubtypeCheck"@,
        StubCallKind::AssertAssignable => "AssertAssignable"@,
    }
}

impl StubCallKind {
    /// The variant name, as `Debug` writes it.
    pub fn name(&self) -> (r: &'static str)
        ensures
            r@ == stub_call_name(*self),
    {
        match self {
            StubCallKind::AllocateObject => "AllocateObject",
            StubCallKind::AllocateArray => "AllocateArray",
            StubCallKind::InstanceOf => "InstanceOf",
            StubCallKind::ThrowException => "ThrowException",
            StubCallKind::NullCheck => "NullCheck",
            StubCallKind::RangeCheck => "RangeCheck",
            StubCallKind::StackOverflowCheck => "StackOverflowCheck",
            StubCallKind::WriteBarrier => "WriteBarrier",
            StubCallKind::DeoptimizeLazyFromReturn => "DeoptimizeLazyFromReturn",
            StubCallKind::DeoptimizeLazyFromThrow => "DeoptimizeLazyFromThrow",
            StubCallKind::SubtypeCheck => "SubtypeCheck",
            StubCallKind::AssertAssignable => "AssertAssignable",
        }
    }
}

/// Binary operation kind.
#[derive(Debug, Clone, Copy, PartialEq, Eq, Hash, Structural)]
pub enum BinOpKind {
    Add,
    Sub,
    Mul,
    Div,
    Mod,
    Shr,
    Shl,
    Asr,
    And,
    Or,
    Xor,
}

/// Unary operation kind.
#[derive(Debug, Clone, Copy, PartialEq, Eq, Hash, Structural)]
pub enum UnaryOpKind {
    Neg,
    Not,
    BitNot,
}

/// Dart type reference for type checks.
#[derive(Debug, Clone)]
pub struct DartTypeRef {
    pub name: String,
    pub is_nullable: bool,
}

/// Main IR instruction set.
#[derive(Debug, Clone)]
pub enum IR {
    /// Assignment: dst = src
    Assign(Reg, Operand),
    /// Binary operation: dst = lhs op rhs
    BinOp { dst: Reg, op: BinOpKind, lhs: Operand, rhs: Operand },
    /// Unary operation: dst = op src
    UnaryOp { dst: Reg, op: UnaryOpKind, src: Operand },
    /// Function call: dst = call(args...)
    Call { dst: Option<Reg>, kind: CallKind, args: Vec<Operand> },
    /// Load from Object Pool
    LoadPool { dst: Reg, addr: SnapshotAddr, resolved: Option<String> },
    /// Field read: dst = base.field
    LoadField { dst: Reg, base: Reg, offset: u32, field_name: Option<String> },
    /// Field write: base.field = value
    StoreField { base: Reg, offset: u32, value: Operand, field_name: Option<String> },
    /// Conditional branch
    Branch { condition: Condition, true_target: BlockId, false_target: BlockId },
    /// Unconditional jump
    Jump(BlockId),
    /// Return from function
    Return(Option<Operand>),
    /// Throw exception
    Throw(Operand),
    /// Phi function (after SSA transformation)
    Phi { dst: Reg, sources: Vec<(BlockId, Reg)> },
    /// Dart null check (from NullCheckStub)
    NullCheck(Reg),
    /// Dart type check (is / as)
    TypeCheck { src: Reg, target_type: DartTypeRef, is_cast: bool },
    /// Compare instruction (sets flags for subsequent branch)
    Compare { lhs: Operand, rhs: Operand },
    /// Unrecognized instruction (graceful degradation)
    Unknown { address: u64, raw_asm: String },
}

/// The mathematical model of an operand: strings as character sequences.
pub enum OperandView {
    Reg(Reg),
    Imm(i64),
    PoolObject(SnapshotAddr),
    StackSlot(i32),
    FieldAccess { base: Reg, offset: u32, field_name: Option<Seq<char>> },
}

/// The model of a type reference.
pub struct DartTypeRefView {
    pub name: Seq<char>,
    pub is_nullable: bool,
}

/// The model of a branch condition.
pub enum ConditionView {
    Equal,
    NotEqual,
    LessThan,
    GreaterThan,
    LessOrEqual,
    GreaterOrEqual,
    True(Reg),
    False(Reg),
    TypeCheck(Reg, DartTypeRefView),
}

/// The model of a call kind.
pub enum CallKindView {
    Direct(SnapshotAddr),
    Virtual(u32),
    DynamicDispatch(Seq<char>),
    Stub(StubCallKind),
    Closure(Reg),
}

/// The model of an IR instruction: lists as sequences, strings as character sequences.
pub enum IRView {
    Assign(Reg, OperandView),
    BinOp { dst: Reg, op: BinOpKind, lhs: OperandView, rhs: OperandView },
    UnaryOp { dst: Reg, op: UnaryOpKind, src: OperandView },
    Call { dst: Option<Reg>, kind: CallKindView, args: Seq<OperandView> },
    LoadPool { dst: Reg, addr: SnapshotAddr, resolved: Option<Seq<char>> },
    LoadField { dst: Reg, base: Reg, offset: u32, field_name: Option<Seq<char>> },
    StoreField { base: Reg, offset: u32, value: OperandView, field_name: Option<Seq<char>> },
    Branch { condition: ConditionView, true_target: BlockId, false_target: BlockId },
    Jump(BlockId),
    Return(Option<OperandView>),
    Throw(OperandView),
    Phi { dst: Reg, sources: Seq<(BlockId, Reg)> },
    NullCheck(Reg),
    TypeCheck { src: Reg, target_type: DartTypeRefView, is_cast: bool },
    Compare { lhs: OperandView, rhs: OperandView },
    Unknown { address: u64, raw_asm: Seq<char> },
}

/// The model of an optional string.
pub open spec fn opt_str_view(s: Option<String>) -> Option<Seq<char>> {
    match s {
        Some(v) => Some(v@),
        None => None,
    }
}

impl View for Operand {
    type V = OperandView;

    open spec fn view(&self) -> OperandView {
        match *self {
            Operand::Reg(r) => OperandView::Reg(r),
            Operand::Imm(v) => OperandView::Imm(v),
            Operand::PoolObject(a) => OperandView::PoolObject(a),
            Operand::StackSlot(s) => OperandView::StackSlot(s),
            Operand::FieldAccess { base, offset, field_name } => OperandView::FieldAccess {
                base,
                offset,
                field_name: opt_str_view(field_name),
            },
        }
    }
}

impl View for DartTypeRef {
    type V = DartTypeRefView;

    open spec fn view(&self) -> DartTypeRefView {
        DartTypeRefView { name: self.name@, is_nullable: self.is_nullable }
    }
}

impl View for Condition {
    type V = ConditionView;

    open spec fn view(&self) -> ConditionView {
        match *self {
            Condition::Equal => ConditionView::Equal,
            Condition::NotEqual => ConditionView::NotEqual,
            Condition::LessThan => ConditionView::LessThan,
            Condition::GreaterThan => ConditionView::GreaterThan,
            Condition::LessOrEqual => ConditionView::LessOrEqual,
            Condition::GreaterOrEqual => ConditionView::GreaterOrEqual,
            Condition::True(r) => ConditionView::True(r),
            Condition::False(r) => ConditionView::False(r),
            Condition::TypeCheck(r, t) => ConditionView::TypeCheck(r, t@),
        }
    }
}

impl View for CallKind {
    type V = CallKindView;

    open spec fn view(&self) -> CallKindView {
        match *self {
            CallKind::Direct(a) => CallKindView::Direct(a),
            CallKind::Virtual(v) => CallKindView::Virtual(v),
            CallKind::DynamicDispatch(n) => CallKindView::DynamicDispatch(n@),
            CallKind::Stub(k) => CallKindView::Stub(k),
            CallKind::Closure(r) => CallKindView::Closure(r),
        }
    }
}

/// The model of a list of operands.
pub open spec fn operands_view(v: Seq<Operand>) -> Seq<OperandView> {
    v.map_values(|o: Operand| o@)
}

impl View for IR {
    type V = IRView;

    open spec fn view(&self) -> IRView {
        match *self {
            IR::Assign(r, o) => IRView::Assign(r, o@),
            IR::BinOp { dst, op, lhs, rhs } => IRView::BinOp { dst, op, lhs: lhs@, rhs: rhs@ },
            IR::UnaryOp { dst, op, src } => IRView::UnaryOp { dst, op, src: src@ },
            IR::Call { dst, kind, args } => IRView::Call { dst, kind: kind@, args: operands_view(args@) },
            IR::LoadPool { dst, addr, resolved } => IRView::LoadPool {
                dst,
                addr,
                resolved: opt_str_view(resolved),
            },
            IR::LoadField { dst, base, offset, field_name } => IRView::LoadField {
                dst,
                base,
                offset,
                field_name: opt_str_view(field_name),
            },
            IR::StoreField { base, offset, value, field_name } => IRView::StoreField {
                base,
                offset,
                value: value@,
                field_name: opt_str_view(field_name),
            },
            IR::Branch { condition, true_target, false_target } => IRView::Branch {
                condition: condition@,
                true_target,
                false_target,
            },
            IR::Jump(t) => IRView::Jump(t),
            IR::Return(v) => IRView::Return(
                match v {
                    Some(o) => Some(o@),
                    None => None,
                },
            ),
            IR::Throw(o) => IRView::Throw(o@),
            IR::Phi { dst, sources } => IRView::Phi { dst, sources: sources@ },
            IR::NullCheck(r) => IRView::NullCheck(r),
            IR::TypeCheck { src, target_type, is_cast } => IRView::TypeCheck {
                src,
                target_type: target_type@,
                is_cast,
            },
            IR::Compare { lhs, rhs } => IRView::Compare { lhs: lhs@, rhs: rhs@ },
            IR::Unknown { address, raw_asm } => IRView::Unknown { address, raw_asm: raw_asm@ },
        }
    }
}

/// The model of a list of IR instructions.
pub open spec fn ir_list_view(v: Seq<IR>) -> Seq<IRView> {
    v.map_values(|i: IR| i@)
}

/// The register an IR instruction writes, if any.
pub open spec fn ir_dest(ir: IR) -> Option<Reg> {
    match ir {
        IR::Assign(r, _) => Some(r),
        IR::BinOp { dst, .. } => Some(dst),
        IR::UnaryOp { dst, .. } => Some(dst),
        IR::Call { dst, .. } => dst,
        IR::LoadPool { dst, .. } => Some(dst),
        IR::LoadField { dst, .. } => Some(dst),
        IR::Phi { dst, .. } => Some(dst),
        _ => None,
    }
}

/// Whether an IR instruction ends a basic block.
pub open spec fn ir_is_terminator(ir: IR) -> bool {
    ir is Branch || ir is Jump || ir is Return || ir is Throw
}

/// A copy of an optional string.
pub fn copy_opt_string(s: &Option<String>) -> (r: Option<String>)
    ensures
        opt_str_view(r) == opt_str_view(*s),
{
    match s {
        Some(v) => Some(v.clone()),
        None => None,
    }
}

impl DartTypeRef {
    /// A copy of this type reference.
    pub fn copy(&self) -> (r: Self)
        ensures
            r@ == self@,
    {
        DartTypeRef { name: self.name.clone(), is_nullable: self.is_nullable }
    }
}

impl Operand {
    /// A copy of this operand.
    pub fn copy(&self) -> (out: Self)
        ensures
            out@ == self@,
    {
        match self {
            Operand::Reg(r) => Operand::Reg(*r),
            Operand::Imm(v) => Operand::Imm(*v),
            Operand::PoolObject(a) => Operand::PoolObject(*a),
            Operand::StackSlot(s) => Operand::StackSlot(*s),
            Operand::FieldAccess { base, offset, field_name } => Operand::FieldAccess {
                base: *base,
                offset: *offset,
                field_name: copy_opt_string(field_name),
            },
        }
    }
}

/// A copy of a list of operands.
pub fn copy_operands(v: &Vec<Operand>) -> (r: Vec<Operand>)
    ensures
        operands_view(r@) == operands_view(v@),
{
    let mut r: Vec<Operand> = Vec::new();
    let mut i: usize = 0;
    while i < v.len()
        invariant
            i <= v@.len(),
            r@.len() == i,
            forall|j: int| 0 <= j < i ==> (#[trigger] r@[j])@ == v@[j]@,
        decreases v.len() - i,
    {
        r.push(v[i].copy());
        i = i + 1;
    }
    assert(operands_view(r@) =~= operands_view(v@));
    r
}

impl Condition {
    /// A copy of this condition.
    pub fn copy(&self) -> (out: Self)
        ensures
            out@ == self@,
    {
        match self {
            Condition::Equal => Condition::Equal,
            Condition::NotEqual => Condition::NotEqual,
            Condition::LessThan => Condition::LessThan,
            Condition::GreaterThan => Condition::GreaterThan,
            Condition::LessOrEqual => Condition::LessOrEqual,
            Condition::GreaterOrEqual => Condition::GreaterOrEqual,
            Condition::True(r) => Condition::True(*r),
            Condition::False(r) => Condition::False(*r),
            Condition::TypeCheck(r, t) => Condition::TypeCheck(*r, t.copy()),
        }
    }
}

impl CallKind {
    /// A copy of this call kind.
    pub fn copy(&self) -> (out: Self)
        ensures
            out@ == self@,
    {
        match self {
            CallKind::Direct(a) => CallKind::Direct(*a),
            CallKind::Virtual(v) => CallKind::Virtual(*v),
            CallKind::DynamicDispatch(n) => CallKind::DynamicDispatch(n.clone()),
            CallKind::Stub(k) => CallKind::Stub(*k),
            CallKind::Closure(r) => CallKind::Closure(*r),
        }
    }
}

/// A copy of a list of phi sources.
fn copy_sources(v: &Vec<(BlockId, Reg)>) -> (r: Vec<(BlockId, Reg)>)
    ensures
        r@ == v@,
{
    let mut r: Vec<(BlockId, Reg)> = Vec::new();
    let mut i: usize = 0;
    while i < v.len()
        invariant
            i <= v@.len(),
            r@ == v@.subrange(0, i as int),
        decreases v.len() - i,
    {
        let (b, g) = v[i];
        r.push((b, g));
        i = i + 1;
        assert(r@ =~= v@.subrange(0, i as int));
    }
    assert(v@.subrange(0, v@.len() as int) =~= v@);
    r
}

impl IR {
    /// A copy of this instruction.
    pub fn copy(&self) -> (out: Self)
        ensures
            out@ == self@,
    {
        match self {
            IR::Assign(r, o) => IR::Assign(*r, o.copy()),
            IR::BinOp { dst, op, lhs, rhs } => IR::BinOp { dst: *dst, op: *op, lhs: lhs.copy(), rhs: rhs.copy() },
            IR::UnaryOp { dst, op, src } => IR::UnaryOp { dst: *dst, op: *op, src: src.copy() },
            IR::Call { dst, kind, args } => IR::Call { dst: *dst, kind: kind.copy(), args: copy_operands(args) },
            IR::LoadPool { dst, addr, resolved } => IR::LoadPool {
                dst: *dst,
                addr: *addr,
                resolved: copy_opt_string(resolved),
            },
            IR::LoadField { dst, base, offset, field_name } => IR::LoadField {
                dst: *dst,
                base: *base,
                offset: *offset,
                field_name: copy_opt_string(field_name),
            },
            IR::StoreField { base, offset, value, field_name } => IR::StoreField {
                base: *base,
                offset: *offset,
                value: value.copy(),
                field_name: copy_opt_string(field_name),
            },
            IR::Branch { condition, true_target, false_target } => IR::Branch {
                condition: condition.copy(),
                true_target: *true_target,
                false_target: *false_target,
            },
            IR::Jump(t) => IR::Jump(*t),
            IR::Return(v) => IR::Return(
                match v {
                    Some(o) => Some(o.copy()),
                    None => None,
                },
            ),
            IR::Throw(o) => IR::Throw(o.copy()),
            IR::Phi { dst, sources } => IR::Phi { dst: *dst, sources: copy_sources(sources) },
            IR::NullCheck(r) => IR::NullCheck(*r),
            IR::TypeCheck { src, target_type, is_cast } => IR::TypeCheck {
                src: *src,
                target_type: target_type.copy(),
                is_cast: *is_cast,
            },
            IR::Compare { lhs, rhs } => IR::Compare { lhs: lhs.copy(), rhs: rhs.copy() },
            IR::Unknown { address, raw_asm } => IR::Unknown { address: *address, raw_asm: raw_asm.clone() },
        }
    }

    /// Get the destination register if this IR writes to one.
    pub fn dest_reg(&self) -> (r: Option<Reg>)
        ensures
            r == ir_dest(*self),
    {
        match self {
            IR::Assign(r, _) => Some(*r),
            IR::BinOp { dst, .. } => Some(*dst),
            IR::UnaryOp { dst, .. } => Some(*dst),
            IR::Call { dst, .. } => *dst,
            IR::LoadPool { dst, .. } => Some(*dst),
            IR::LoadField { dst, .. } => Some(*dst),
            IR::Phi { dst, .. } => Some(*dst),
            _ => None,
        }
    }

    /// Check if this IR is a terminator (ends a basic block).
    pub fn is_terminator(&self) -> (r: bool)
        ensures
            r == ir_is_terminator(*self),
    {
        match self {
            IR::Branch { .. } | IR::Jump(_) | IR::Return(_) | IR::Throw(_) => true,
            _ => false,
        }
    }
}

/// A copy of a list of IR instructions.
pub fn copy_ir_list(v: &[IR]) -> (r: Vec<IR>)
    ensures
        ir_list_view(r@) == ir_list_view(v@),
{
    let mut r: Vec<IR> = Vec::new();
    let mut i: usize = 0;
    while i < v.len()
        invariant
            i <= v@.len(),
            r@.len() == i,
            forall|j: int| 0 <= j < i ==> (#[trigger] r@[j])@ == v@[j]@,
        decreases v.len() - i,
    {
        r.push(v[i].copy());
        i = i + 1;
    }
    assert(ir_list_view(r@) =~= ir_list_view(v@));
    r
}

/// A copy of the instructions from `start` up to, not including, `end`.
pub fn copy_ir_range(v: &[IR], start: usize, end: usize) -> (r: Vec<IR>)
    requires
        start <= end <= v@.len(),
    ensures
        ir_list_view(r@) == ir_list_view(v@).subrange(start as int, end as int),
{
    let mut r: Vec<IR> = Vec::new();
    let mut i: usize = start;
    while i < end
        invariant
            start <= i <= end <= v@.len(),
            r@.len() == i - start,
            forall|j: int| 0 <= j < r@.len() ==> (#[trigger] r@[j])@ == v@[start + j]@,
        decreases end - i,
    {
        r.push(v[i].copy());
        i = i + 1;
    }
    assert(ir_list_view(r@) =~= ir_list_view(v@).subrange(start as int, end as int));
    r
}

/// A terminator never writes a register: no instruction both ends a
/// block and defines a value.
pub proof fn law_terminators_define_nothing(ir: IR)
    ensures
        ir_is_terminator(ir) ==> ir_dest(ir) is None,
{
}

/// The operation of a single lifted binary operation, if that is what `s` is.
pub open spec fn lifted_binop(s: Seq<IRView>) -> Option<BinOpKind> {
    if s.len() == 1 {
        match s[0] {
            IRView::BinOp { op, .. } => Some(op),
            _ => None,
        }
    } else {
        None
    }
}

/// The character at a position of a text.
pub open spec fn char_at(s: Seq<char>, i: int) -> char {
    s[i]
}

/// The condition of a single lifted two-way branch, if that is what `s` is.
pub open spec fn lifted_condition(s: Seq<IRView>) -> Option<ConditionView> {
    if s.len() == 1 {
        match s[0] {
            IRView::Branch { condition, .. } => Some(condition),
            _ => None,
        }
    } else {
        None
    }
}

} // verus!
