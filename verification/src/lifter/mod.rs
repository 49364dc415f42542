//! The IR lifter: translates disassembled instructions into the
//! platform-independent intermediate representation.

use vstd::prelude::*;
use crate::binary::Architecture;
use crate::disasm::common::{DisasmError, Instruction};
use crate::snapshot::StubKind;
use ir::{ir_list_view, IRView, StubCallKind, IR};
use operands::fallthrough_fits;
use resolvers::{PoolResolver, StubResolver};

pub mod ir;
pub mod resolvers;
pub mod operands;
pub mod arm64;
pub mod arm32;
pub mod x86_64;

verus! {

/// Errors of lifting.
#[derive(Debug)]
pub enum LiftError {
    UnsupportedArch(String),
    LiftFailed { addr: u64, reason: String },
    Disasm(DisasmError),
}


/// The IR that lifting for `arch` gives a list of instructions.
pub open spec fn lift_spec(
    insns: Seq<Instruction>,
    arch: Architecture,
    pool: Map<u64, Seq<char>>,
    stubs: StubResolver,
) -> Seq<IRView> {
    match arch {
        Architecture::Arm64 => arm64::arm64_lift_prefix(insns, insns.len(), pool, stubs.addresses(), stubs.pool_offsets()),
        Architecture::Arm32 => arm32::arm32_lift_prefix(insns, insns.len(), pool, stubs.addresses()),
        Architecture::X86_64 | Architecture::X86 => x86_64::x86_lift_prefix(insns, insns.len(), stubs.addresses()),
    }
}

/// Lift a sequence of instructions into IR, with the lifter of `arch`.
pub fn lift_instructions(
    instructions: &[Instruction],
    arch: Architecture,
    pool_resolver: &PoolResolver,
    stub_resolver: &StubResolver,
) -> (r: Result<Vec<IR>, LiftError>)
    requires
        forall|i: int| 0 <= i < instructions@.len() ==> fallthrough_fits(#[trigger] instructions@[i]),
    ensures
        r matches Ok(v) && ir_list_view(v@) == lift_spec(instructions@, arch, pool_resolver@, *stub_resolver),
{
    match arch {
        Architecture::Arm64 => arm64::lift_arm64(instructions, pool_resolver, stub_resolver),
        Architecture::Arm32 => arm32::lift_arm32(instructions, pool_resolver, stub_resolver),
        Architecture::X86_64 | Architecture::X86 => x86_64::lift_x86_64(instructions, pool_resolver, stub_resolver),
    }
}

/// The IR stub call that stands for a snapshot stub kind.
pub open spec fn stub_call_for(kind: StubKind) -> StubCallKind {
    match kind {
        StubKind::AllocateObject => StubCallKind::AllocateObject,
        StubKind::AllocateArray => StubCallKind::AllocateArray,
        StubKind::InstanceOf => StubCallKind::InstanceOf,
        StubKind::ThrowException => StubCallKind::ThrowException,
        StubKind::NullCheck => StubCallKind::NullCheck,
        StubKind::RangeCheck => StubCallKind::RangeCheck,
        StubKind::StackOverflowCheck => StubCallKind::StackOverflowCheck,
        StubKind::WriteBarrier => StubCallKind::WriteBarrier,
        StubKind::DeoptimizeLazyFromReturn => StubCallKind::DeoptimizeLazyFromReturn,
        StubKind::DeoptimizeLazyFromThrow => StubCallKind::DeoptimizeLazyFromThrow,
        StubKind::SubtypeCheck => StubCallKind::SubtypeCheck,
        StubKind::AssertAssignable => StubCallKind::AssertAssignable,
        StubKind::CallToRuntime | StubKind::ScheduleMicrotask | StubKind::Unknown => StubCallKind::AllocateObject,
    }
}

impl StubResolver {
    /// Convert snapshot StubKind to IR StubCallKind (kinds without a
    /// counterpart fall back to `AllocateObject`).
    pub fn from_snapshot_stub(kind: StubKind) -> (r: StubCallKind)
        ensures
            r == stub_call_for(kind),
    {
        match kind {
            StubKind::AllocateObject => StubCallKind::AllocateObject,
            StubKind::AllocateArray => StubCallKind::AllocateArray,
            StubKind::InstanceOf => StubCallKind::InstanceOf,
            StubKind::ThrowException => StubCallKind::ThrowException,
            StubKind::NullCheck => StubCallKind::NullCheck,
            StubKind::RangeCheck => StubCallKind::RangeCheck,
            StubKind::StackOverflowCheck => StubCallKind::StackOverflowCheck,
            StubKind::WriteBarrier => StubCallKind::WriteBarrier,
            StubKind::DeoptimizeLazyFromReturn => StubCallKind::DeoptimizeLazyFromReturn,
            StubKind::DeoptimizeLazyFromThrow => StubCallKind::DeoptimizeLazyFromThrow,
            StubKind::SubtypeCheck => StubCallKind::SubtypeCheck,
            StubKind::AssertAssignable => StubCallKind::AssertAssignable,
            StubKind::CallToRuntime | StubKind::ScheduleMicrotask | StubKind::Unknown => {
                StubCallKind::AllocateObject
            },
        }
    }
}

} // verus!
