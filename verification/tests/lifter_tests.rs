use dart_dec::disasm::convert::{Disassembler, X86_64Disassembler};
use dart_dec::disasm::decoders::Arm64Disassembler;
use dart_dec::lifter::ir::{Operand, Reg, StubCallKind, IR};
use dart_dec::lifter::resolvers::{truncate_str, PoolResolver, StubResolver};
use dart_dec::snapshot::{DartArray, DartObject, DartString, FunctionKind, ObjectPool, SnapshotAddr, StubKind};

#[test]
fn test_ir_terminator() {
    assert!(IR::Return(None).is_terminator());
    assert!(IR::Jump(0).is_terminator());
    assert!(IR::Throw(Operand::Imm(0)).is_terminator());
    assert!(!IR::Assign(Reg(0), Operand::Imm(0)).is_terminator());
}

#[test]
fn test_ir_dest_reg() {
    let ir = IR::Assign(Reg(5), Operand::Imm(42));
    assert_eq!(ir.dest_reg(), Some(Reg(5)));
    let ir = IR::Return(None);
    assert_eq!(ir.dest_reg(), None);
}

#[test]
fn test_reg_display() {
    assert_eq!(Reg(0).display(), "r0");
    assert_eq!(Reg(27).display(), "r27");
}

#[test]
fn test_pool_resolver_new() {
    let resolver = PoolResolver::new();
    assert!(resolver.resolve_offset(0).is_none());
}

#[test]
fn test_pool_resolver_add_entry() {
    let mut resolver = PoolResolver::new();
    resolver.add_entry(0x100, "test_string".to_string());
    assert_eq!(resolver.resolve_offset(0x100), Some("test_string".to_string()));
    assert!(resolver.resolve_offset(0x200).is_none());
}

#[test]
fn test_stub_resolver_new() {
    let resolver = StubResolver::new();
    assert!(resolver.resolve_address(0).is_none());
}

#[test]
fn test_stub_resolver_register() {
    let mut resolver = StubResolver::new();
    resolver.register_stub(0x1000, StubCallKind::NullCheck);
    assert_eq!(resolver.resolve_address(0x1000), Some(StubCallKind::NullCheck));
    assert!(resolver.resolve_address(0x2000).is_none());
}

#[test]
fn test_stub_resolver_pool() {
    let mut resolver = StubResolver::new();
    resolver.register_pool_stub(0x40, StubCallKind::AllocateObject);
    assert_eq!(resolver.resolve_pool_offset(0x40), Some(StubCallKind::AllocateObject));
}

#[test]
fn pool_resolver_keeps_last_entry_per_offset() {
    let mut resolver = PoolResolver::new();
    resolver.add_entry(8, "first".to_string());
    resolver.add_entry(16, "other".to_string());
    resolver.add_entry(8, "second".to_string());
    assert_eq!(resolver.resolve_offset(8), Some("second".to_string()));
    assert_eq!(resolver.resolve_offset(16), Some("other".to_string()));
}

#[test]
fn stub_kind_conversion_falls_back_to_allocate_object() {
    assert_eq!(StubResolver::from_snapshot_stub(StubKind::NullCheck), StubCallKind::NullCheck);
    assert_eq!(StubResolver::from_snapshot_stub(StubKind::CallToRuntime), StubCallKind::AllocateObject);
    assert_eq!(StubResolver::from_snapshot_stub(StubKind::Unknown), StubCallKind::AllocateObject);
}

#[test]
fn test_snapshot_addr_display() {
    let addr = SnapshotAddr(0x1234);
    assert_eq!(addr.display(), "0x1234");
}

#[test]
fn test_function_kind_display() {
    assert_eq!(FunctionKind::RegularFunction.display(), "regular");
    assert_eq!(FunctionKind::Getter.display(), "getter");
    assert_eq!(FunctionKind::Constructor.display(), "constructor");
    assert_eq!(FunctionKind::AsyncClosure.display(), "async_closure");
}

#[test]
fn test_stub_kind_display() {
    assert_eq!(StubKind::AllocateObject.display(), "AllocateObject");
    assert_eq!(StubKind::NullCheck.display(), "NullCheck");
}

#[test]
fn snapshot_addr_display_zero_and_large() {
    assert_eq!(SnapshotAddr(0).display(), "0x0");
    assert_eq!(SnapshotAddr(0xdeadbeef).display(), "0xdeadbeef");
}

#[test]
fn test_lift_arm64_basic() {
    let disasm = Arm64Disassembler::new().unwrap();
    // RET instruction
    let code = [0xc0, 0x03, 0x5f, 0xd6];
    let insns = disasm.disassemble(&code, 0x1000).unwrap();
    let pool_resolver = PoolResolver::new();
    let stub_resolver = StubResolver::new();
    let ir = dart_dec::lifter::lift_instructions(
        &insns,
        dart_dec::binary::Architecture::Arm64,
        &pool_resolver,
        &stub_resolver,
    )
    .unwrap();
    assert!(!ir.is_empty());
    assert!(ir.iter().any(|i| matches!(i, IR::Return(_))));
}

#[test]
fn test_lift_x86_ret() {
    let disasm = X86_64Disassembler::new(dart_dec::binary::Architecture::X86_64).unwrap();
    let code = [0xc3]; // RET
    let insns = disasm.disassemble(&code, 0x1000).unwrap();
    let pool_resolver = PoolResolver::new();
    let stub_resolver = StubResolver::new();
    let ir = dart_dec::lifter::lift_instructions(
        &insns,
        dart_dec::binary::Architecture::X86_64,
        &pool_resolver,
        &stub_resolver,
    )
    .unwrap();
    assert!(!ir.is_empty());
    assert!(ir.iter().any(|i| matches!(i, IR::Return(_))));
}

#[test]
fn test_pool_resolver_from_object_pool() {
    let mut pool = ObjectPool::new();
    pool.insert(SnapshotAddr(8), DartObject::String(DartString { addr: SnapshotAddr(8), value: "hi".to_string(), is_one_byte: true }));
    pool.insert(SnapshotAddr(16), DartObject::Mint(-5));
    pool.insert(SnapshotAddr(24), DartObject::Double(2.5f64.to_bits()));
    pool.insert(SnapshotAddr(32), DartObject::Array(DartArray { addr: SnapshotAddr(32), elements: vec![SnapshotAddr(1), SnapshotAddr(2)], is_immutable: false, type_args: None }));
    pool.insert(SnapshotAddr(40), DartObject::SentinelObject);
    pool.insert(SnapshotAddr(48), DartObject::Bool(true));
    let r = PoolResolver::from_object_pool(&pool, |b| format!("{}", f64::from_bits(b)));
    assert_eq!(r.resolve_offset(8).as_deref(), Some("\"hi\""));
    assert_eq!(r.resolve_offset(16).as_deref(), Some("int:-5"));
    assert_eq!(r.resolve_offset(24).as_deref(), Some("double:2.5"));
    assert_eq!(r.resolve_offset(32).as_deref(), Some("array[2]"));
    assert_eq!(r.resolve_offset(40).as_deref(), Some("obj@0x28"));
    assert_eq!(r.resolve_offset(48).as_deref(), Some("bool:true"));
    assert!(r.resolve_offset(56).is_none());
}

#[test]
fn test_truncate_str() {
    let long = "x".repeat(70);
    assert_eq!(truncate_str(&long, 64), format!("{}...", "x".repeat(64)));
    assert_eq!(truncate_str("short", 64), "short");
}
