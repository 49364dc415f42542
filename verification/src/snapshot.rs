//! Objects recovered from a Dart AOT snapshot.

use vstd::prelude::*;
use crate::text::{hex_seq, owned, push_hex, push_str};

verus! {

/// Address in the snapshot's virtual space.
#[derive(Debug, Clone, Copy, Hash, Eq, PartialEq, Structural)]
pub struct SnapshotAddr(pub u64);

/// The display text of an address: `0x` and lowercase hexadecimal digits.
pub open spec fn addr_text(a: SnapshotAddr) -> Seq<char> {
    "0x"@ + hex_seq(a.0 as nat)
}

impl SnapshotAddr {
    /// The display text, e.g. `0x1234`.
    pub fn display(&self) -> (r: String)
        ensures
            r@ == addr_text(*self),
    {
        let mut s = owned("0x");
        push_hex(&mut s, self.0);
        s
    }

    /// Appends the display text to `s`.
    pub fn write_to(&self, s: &mut String)
        ensures
            final(s)@ == old(s)@ + addr_text(*self),
    {
        push_str(s, "0x");
        push_hex(s, self.0);
        assert(s@ =~= old(s)@ + addr_text(*self));
    }
}

/// Universal object tag from Dart VM.
#[derive(Debug, Clone)]
pub struct ObjectTag {
    pub class_id: u16,
    pub size: u32,
    pub is_canonical: bool,
    pub is_old: bool,
}

/// Hierarchy of Dart objects recovered from the snapshot.
/// A double is held as its IEEE-754 bit pattern.
#[derive(Debug, Clone)]
pub enum DartObject {
    Class(DartClass),
    Function(DartFunction),
    Field(DartField),
    Code(DartCode),
    String(DartString),
    Array(DartArray),
    Mint(i64),
    Double(u64),
    Bool(bool),
    Null,
    Type(DartType),
    Closure(DartClosure),
    Record(DartRecord),
    SentinelObject,
    Unknown { class_id: u16, raw: Vec<u8> },
}

#[derive(Debug, Clone)]
pub struct DartClass {
    pub addr: SnapshotAddr,
    pub name: String,
    pub library: String,
    pub super_class: Option<SnapshotAddr>,
    pub interfaces: Vec<SnapshotAddr>,
    pub fields: Vec<SnapshotAddr>,
    pub functions: Vec<SnapshotAddr>,
    pub type_parameters: Vec<String>,
    pub is_abstract: bool,
    pub is_sealed: bool,
    pub is_mixin: bool,
    pub is_enum: bool,
    pub class_id: u16,
}

#[derive(Debug, Clone)]
pub struct DartFunction {
    pub addr: SnapshotAddr,
    pub name: String,
    pub owner_class: Option<SnapshotAddr>,
    pub code_addr: SnapshotAddr,
    pub kind: FunctionKind,
    pub is_static: bool,
    pub is_async: bool,
    pub is_generator: bool,
    pub parameter_names: Vec<String>,
    pub return_type: Option<String>,
}

#[derive(Debug, Clone, Copy, PartialEq, Eq, Hash, Structural)]
pub enum FunctionKind {
    RegularFunction,
    Getter,
    Setter,
    Constructor,
    FactoryConstructor,
    ImplicitGetter,
    ImplicitSetter,
    ClosureFunction,
    AsyncClosure,
}

/// The display name of a function kind.
pub open spec fn function_kind_name(k: FunctionKind) -> Seq<char> {
    match k {
        FunctionKind::RegularFunction => "regular"@,
        FunctionKind::Getter => "getter"@,
        FunctionKind::Setter => "setter"@,
        FunctionKind::Constructor => "constructor"@,
        FunctionKind::FactoryConstructor => "factory"@,
        FunctionKind::ImplicitGetter => "implicit_getter"@,
        FunctionKind::ImplicitSetter => "implicit_setter"@,
        FunctionKind::ClosureFunction => "closure"@,
        FunctionKind::AsyncClosure => "async_closure"@,
    }
}

impl FunctionKind {
    /// The display name, e.g. `regular` or `async_closure`.
    pub fn display(&self) -> (r: String)
        ensures
            r@ == function_kind_name(*self),
    {
        match self {
            FunctionKind::RegularFunction => owned("regular"),
            FunctionKind::Getter => owned("getter"),
            FunctionKind::Setter => owned("setter"),
            FunctionKind::Constructor => owned("constructor"),
            FunctionKind::FactoryConstructor => owned("factory"),
            FunctionKind::ImplicitGetter => owned("implicit_getter"),
            FunctionKind::ImplicitSetter => owned("implicit_setter"),
            FunctionKind::ClosureFunction => owned("closure"),
            FunctionKind::AsyncClosure => owned("async_closure"),
        }
    }
}

#[derive(Debug, Clone)]
pub struct DartField {
    pub addr: SnapshotAddr,
    pub name: String,
    pub owner_class: Option<SnapshotAddr>,
    pub field_type: Option<String>,
    pub is_static: bool,
    pub is_final: bool,
    pub is_const: bool,
    pub is_late: bool,
}

#[derive(Debug, Clone)]
pub struct DartCode {
    pub addr: SnapshotAddr,
    pub instructions_offset: u64,
    pub instructions_size: u32,
    pub object_pool_addr: Option<SnapshotAddr>,
    pub pc_descriptors: Vec<PcDescriptor>,
}

#[derive(Debug, Clone)]
pub struct PcDescriptor {
    pub pc_offset: u32,
    pub deopt_id: u32,
    pub token_pos: i32,
    pub kind: PcDescriptorKind,
}

#[derive(Debug, Clone, Copy, PartialEq, Eq, Structural)]
pub enum PcDescriptorKind {
    Deopt,
    IcCall,
    UnoptStaticCall,
    RuntimeCall,
    OsrEntry,
    Rewind,
    BSSReloc,
    Other(u8),
}

#[derive(Debug, Clone)]
pub struct DartString {
    pub addr: SnapshotAddr,
    pub value: String,
    pub is_one_byte: bool,
}

#[derive(Debug, Clone)]
pub struct DartArray {
    pub addr: SnapshotAddr,
    pub elements: Vec<SnapshotAddr>,
    pub is_immutable: bool,
    pub type_args: Option<String>,
}

#[derive(Debug, Clone)]
pub struct DartType {
    pub addr: SnapshotAddr,
    pub name: String,
    pub is_nullable: bool,
    pub type_arguments: Vec<String>,
}

#[derive(Debug, Clone)]
pub struct DartClosure {
    pub addr: SnapshotAddr,
    pub function: SnapshotAddr,
    pub context: Option<SnapshotAddr>,
}

#[derive(Debug, Clone)]
pub struct DartRecord {
    pub addr: SnapshotAddr,
    pub num_fields: u32,
    pub field_names: Vec<String>,
    pub field_values: Vec<SnapshotAddr>,
}


/// Kinds of Dart VM stubs recognized in a snapshot.
#[derive(Debug, Clone, Copy, PartialEq, Eq, Hash, Structural)]
pub enum StubKind {
    AllocateObject,
    AllocateArray,
    InstanceOf,
    ThrowException,
    NullCheck,
    RangeCheck,
    StackOverflowCheck,
    WriteBarrier,
    DeoptimizeLazyFromReturn,
    DeoptimizeLazyFromThrow,
    SubtypeCheck,
    AssertAssignable,
    CallToRuntime,
    ScheduleMicrotask,
    Unknown,
}

/// The display name of a stub kind: its variant name.
pub open spec fn stub_kind_name(k: StubKind) -> Seq<char> {
    match k {
        StubKind::AllocateObject => "AllocateObject"@,
        StubKind::AllocateArray => "AllocateArray"@,
        StubKind::InstanceOf => "InstanceOf"@,
        StubKind::ThrowException => "ThrowException"@,
        StubKind::NullCheck => "NullCheck"@,
        StubKind::RangeCheck => "RangeCheck"@,
        StubKind::StackOverflowCheck => "StackOverflowCheck"@,
        StubKind::WriteBarrier => "WriteBarrier"@,
        StubKind::DeoptimizeLazyFromReturn => "DeoptimizeLazyFromReturn"@,
        StubKind::DeoptimizeLazyFromThrow => "DeoptimizeLazyFromThrow"@,
        StubKind::SubtypeCheck => "SubtypeCheck"@,
        StubKind::AssertAssignable => "AssertAssignable"@,
        StubKind::CallToRuntime => "CallToRuntime"@,
        StubKind::ScheduleMicrotask => "ScheduleMicrotask"@,
        StubKind::Unknown => "Unknown"@,
    }
}

impl StubKind {
    /// The display name, e.g. `AllocateObject`.
    pub fn display(&self) -> (r: String)
        ensures
            r@ == stub_kind_name(*self),
    {
        match self {
            StubKind::AllocateObject => owned("AllocateObject"),
            StubKind::AllocateArray => owned("AllocateArray"),
            StubKind::InstanceOf => owned("InstanceOf"),
            StubKind::ThrowException => owned("ThrowException"),
            StubKind::NullCheck => owned("NullCheck"),
            StubKind::RangeCheck => owned("RangeCheck"),
            StubKind::StackOverflowCheck => owned("StackOverflowCheck"),
            StubKind::WriteBarrier => owned("WriteBarrier"),
            StubKind::DeoptimizeLazyFromReturn => owned("DeoptimizeLazyFromReturn"),
            StubKind::DeoptimizeLazyFromThrow => owned("DeoptimizeLazyFromThrow"),
            StubKind::SubtypeCheck => owned("SubtypeCheck"),
            StubKind::AssertAssignable => owned("AssertAssignable"),
            StubKind::CallToRuntime => owned("CallToRuntime"),
            StubKind::ScheduleMicrotask => owned("ScheduleMicrotask"),
            StubKind::Unknown => owned("Unknown"),
        }
    }
}


/// The objects of a snapshot, keyed by address, in the order their
/// addresses were first inserted.
pub struct ObjectPool {
    entries: Vec<(SnapshotAddr, DartObject)>,
}

/// No address occurs twice among the entries.
pub open spec fn addrs_unique(e: Seq<(SnapshotAddr, DartObject)>) -> bool {
    forall|i: int, j: int| 0 <= i < j < e.len() ==> (#[trigger] e[i]).0 != (#[trigger] e[j]).0
}

/// The position of the entry for `a`, if there is one.
pub open spec fn entry_index(e: Seq<(SnapshotAddr, DartObject)>, a: SnapshotAddr) -> Option<int> {
    if exists|i: int| 0 <= i < e.len() && e[i].0 == a {
        Some(choose|i: int| 0 <= i < e.len() && e[i].0 == a)
    } else {
        None
    }
}

impl ObjectPool {
    /// The entries, in insertion order.
    pub closed spec fn entries(&self) -> Seq<(SnapshotAddr, DartObject)> {
        self.entries@
    }

    /// No address occurs twice.
    pub closed spec fn wf(&self) -> bool {
        addrs_unique(self.entries@)
    }

    /// In a well-formed pool no address occurs twice.
    pub proof fn lemma_unique(&self)
        requires
            self.wf(),
        ensures
            addrs_unique(self.entries()),
    {
    }

    /// An empty pool.
    pub fn new() -> (r: Self)
        ensures
            r.wf(),
            r.entries().len() == 0,
    {
        ObjectPool { entries: Vec::new() }
    }

    /// The number of objects.
    pub fn len(&self) -> (r: usize)
        ensures
            r == self.entries().len(),
    {
        self.entries.len()
    }

    /// Whether the pool holds no object.
    pub fn is_empty(&self) -> (r: bool)
        ensures
            r == (self.entries().len() == 0),
    {
        self.entries.len() == 0
    }

    /// Store `obj` at `addr`, replacing the object there if any; a new
    /// address goes after all others.
    pub fn insert(&mut self, addr: SnapshotAddr, obj: DartObject)
        requires
            old(self).wf(),
        ensures
            final(self).wf(),
            match entry_index(old(self).entries(), addr) {
                Some(i) => final(self).entries() == old(self).entries().update(i, (addr, obj)),
                None => final(self).entries() == old(self).entries().push((addr, obj)),
            },
    {
        let mut i: usize = 0;
        while i < self.entries.len()
            invariant
                i <= self.entries@.len(),
                self.entries@ == old(self).entries@,
                addrs_unique(self.entries@),
                forall|j: int| 0 <= j < i ==> (#[trigger] self.entries@[j]).0 != addr,
            decreases self.entries.len() - i,
        {
            if self.entries[i].0 == addr {
                proof {
                    let k = choose|k: int| 0 <= k < self.entries@.len() && self.entries@[k].0 == addr;
                    assert(k == i as int) by {
                        if k != i as int {
                            if k < i as int {
                            } else {
                                assert(self.entries@[i as int].0 != self.entries@[k].0);
                            }
                        }
                    }
                }
                self.entries.set(i, (addr, obj));
                return;
            }
            i = i + 1;
        }
        self.entries.push((addr, obj));
    }

    /// The object at `addr`, if any.
    pub fn get(&self, addr: &SnapshotAddr) -> (r: Option<&DartObject>)
        requires
            self.wf(),
        ensures
            match entry_index(self.entries(), *addr) {
                Some(i) => r == Some(&self.entries()[i].1),
                None => r is None,
            },
    {
        let mut i: usize = 0;
        while i < self.entries.len()
            invariant
                i <= self.entries@.len(),
                addrs_unique(self.entries@),
                forall|j: int| 0 <= j < i ==> (#[trigger] self.entries@[j]).0 != *addr,
            decreases self.entries.len() - i,
        {
            if self.entries[i].0 == *addr {
                proof {
                    let k = choose|k: int| 0 <= k < self.entries@.len() && self.entries@[k].0 == *addr;
                    assert(k == i as int) by {
                        if k != i as int {
                            if k < i as int {
                            } else {
                                assert(self.entries@[i as int].0 != self.entries@[k].0);
                            }
                        }
                    }
                }
                return Some(&self.entries[i].1);
            }
            i = i + 1;
        }
        None
    }

    /// The functions among the objects, with their addresses, in order.
    pub fn functions(&self) -> (r: Vec<(SnapshotAddr, &DartFunction)>)
        ensures
            r@.len() <= self.entries().len(),
            forall|k: int| 0 <= k < r@.len() ==> exists|i: int| 0 <= i < self.entries().len()
                && (#[trigger] r@[k]).0 == self.entries()[i].0 && self.entries()[i].1 == DartObject::Function(*r@[k].1),
            forall|i: int| 0 <= i < self.entries().len() && (#[trigger] self.entries()[i].1) is Function
                ==> exists|k: int| 0 <= k < r@.len() && r@[k].0 == self.entries()[i].0,
    {
        let mut r: Vec<(SnapshotAddr, &DartFunction)> = Vec::new();
        let mut i: usize = 0;
        while i < self.entries.len()
            invariant
                i <= self.entries@.len(),
                r@.len() <= i,
                forall|k: int| 0 <= k < r@.len() ==> exists|j: int| 0 <= j < i
                    && (#[trigger] r@[k]).0 == self.entries@[j].0 && self.entries@[j].1 == DartObject::Function(*r@[k].1),
                forall|j: int| 0 <= j < i && (#[trigger] self.entries@[j].1) is Function
                    ==> exists|k: int| 0 <= k < r@.len() && r@[k].0 == self.entries@[j].0,
            decreases self.entries.len() - i,
        {
            let ghost old_r = r@;
            if let DartObject::Function(f) = &self.entries[i].1 {
                r.push((self.entries[i].0, f));
                assert(r@[r@.len() - 1].0 == self.entries@[i as int].0);
            }
            assert forall|j: int| 0 <= j < i + 1 && (#[trigger] self.entries@[j].1) is Function
                implies exists|k: int| 0 <= k < r@.len() && r@[k].0 == self.entries@[j].0 by {
                if j < i {
                    let k = choose|k: int| 0 <= k < old_r.len() && old_r[k].0 == self.entries@[j].0;
                    assert(r@[k] == old_r[k]);
                } else {
                    assert(r@[r@.len() - 1].0 == self.entries@[j].0);
                }
            }
            i = i + 1;
        }
        r
    }

    /// The classes among the objects, with their addresses, in order.
    pub fn classes(&self) -> (r: Vec<(SnapshotAddr, &DartClass)>)
        ensures
            r@.len() <= self.entries().len(),
            forall|k: int| 0 <= k < r@.len() ==> exists|i: int| 0 <= i < self.entries().len()
                && (#[trigger] r@[k]).0 == self.entries()[i].0 && self.entries()[i].1 == DartObject::Class(*r@[k].1),
            forall|i: int| 0 <= i < self.entries().len() && (#[trigger] self.entries()[i].1) is Class
                ==> exists|k: int| 0 <= k < r@.len() && r@[k].0 == self.entries()[i].0,
    {
        let mut r: Vec<(SnapshotAddr, &DartClass)> = Vec::new();
        let mut i: usize = 0;
        while i < self.entries.len()
            invariant
                i <= self.entries@.len(),
                r@.len() <= i,
                forall|k: int| 0 <= k < r@.len() ==> exists|j: int| 0 <= j < i
                    && (#[trigger] r@[k]).0 == self.entries@[j].0 && self.entries@[j].1 == DartObject::Class(*r@[k].1),
                forall|j: int| 0 <= j < i && (#[trigger] self.entries@[j].1) is Class
                    ==> exists|k: int| 0 <= k < r@.len() && r@[k].0 == self.entries@[j].0,
            decreases self.entries.len() - i,
        {
            let ghost old_r = r@;
            if let DartObject::Class(c) = &self.entries[i].1 {
                r.push((self.entries[i].0, c));
                assert(r@[r@.len() - 1].0 == self.entries@[i as int].0);
            }
            assert forall|j: int| 0 <= j < i + 1 && (#[trigger] self.entries@[j].1) is Class
                implies exists|k: int| 0 <= k < r@.len() && r@[k].0 == self.entries@[j].0 by {
                if j < i {
                    let k = choose|k: int| 0 <= k < old_r.len() && old_r[k].0 == self.entries@[j].0;
                    assert(r@[k] == old_r[k]);
                } else {
                    assert(r@[r@.len() - 1].0 == self.entries@[j].0);
                }
            }
            i = i + 1;
        }
        r
    }

    /// The entries, in insertion order.
    pub fn iter(&self) -> (r: &[(SnapshotAddr, DartObject)])
        ensures
            r@ == self.entries(),
    {
        self.entries.as_slice()
    }
}

/// The classes recovered from a snapshot.
pub struct ClassTable {
    pub classes: Vec<DartClass>,
}

impl ClassTable {
    /// An empty table.
    pub fn new() -> (r: Self)
        ensures
            r.classes@.len() == 0,
    {
        ClassTable { classes: Vec::new() }
    }

    /// The number of classes.
    pub fn len(&self) -> (r: usize)
        ensures
            r == self.classes@.len(),
    {
        self.classes.len()
    }

    /// Whether the table holds no class.
    pub fn is_empty(&self) -> (r: bool)
        ensures
            r == (self.classes@.len() == 0),
    {
        self.classes.len() == 0
    }
}

/// The strings recovered from a snapshot.
pub struct StringTable {
    pub strings: Vec<DartString>,
}

impl StringTable {
    /// An empty table.
    pub fn new() -> (r: Self)
        ensures
            r.strings@.len() == 0,
    {
        StringTable { strings: Vec::new() }
    }

    /// The number of strings.
    pub fn len(&self) -> (r: usize)
        ensures
            r == self.strings@.len(),
    {
        self.strings.len()
    }

    /// Whether the table holds no string.
    pub fn is_empty(&self) -> (r: bool)
        ensures
            r == (self.strings@.len() == 0),
    {
        self.strings.len() == 0
    }
}


/// A parsed snapshot: its objects keyed by address, its classes and its
/// strings.
pub struct ParsedSnapshot {
    pub objects: ObjectPool,
    pub classes: ClassTable,
    pub strings: StringTable,
}
} // verus!
