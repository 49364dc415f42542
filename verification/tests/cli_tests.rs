use dart_dec::binary::sections::SectionInfo;
use dart_dec::context::DartDecContext;
use dart_dec::binary::file::BinaryFile;
use dart_dec::binary::Architecture;
use dart_dec::cli::{
    checked_memory_limit, class_csv_row, collect_xrefs, count_outcomes, decomp_result, decompile_single_function, section_line, extract_field_name, extract_offset_value, extract_size_value,
    parse_class_id_h, parse_memory_limit, parse_raw_object_h, resolve_cross_references, split_version_tag,
    DecompileError,
};
use dart_dec::lifter::resolvers::{PoolResolver, StubResolver};
use dart_dec::snapshot::{
    ClassTable, DartClass, DartClosure, DartCode, DartFunction, DartObject, FunctionKind, ObjectPool, ParsedSnapshot,
    SnapshotAddr, StringTable,
};

fn function(addr: u64, name: &str, owner: Option<u64>, code: u64) -> DartFunction {
    DartFunction {
        addr: SnapshotAddr(addr),
        name: name.to_string(),
        owner_class: owner.map(SnapshotAddr),
        code_addr: SnapshotAddr(code),
        kind: FunctionKind::RegularFunction,
        is_static: false,
        is_async: false,
        is_generator: false,
        parameter_names: vec![],
        return_type: None,
    }
}

fn code(addr: u64, offset: u64, size: u32, pool: Option<u64>) -> DartCode {
    DartCode {
        addr: SnapshotAddr(addr),
        instructions_offset: offset,
        instructions_size: size,
        object_pool_addr: pool.map(SnapshotAddr),
        pc_descriptors: vec![],
    }
}

fn class(addr: u64, name: &str, sup: Option<u64>, ifaces: Vec<u64>, funcs: Vec<u64>) -> DartClass {
    DartClass {
        addr: SnapshotAddr(addr),
        name: name.to_string(),
        library: "lib".to_string(),
        super_class: sup.map(SnapshotAddr),
        interfaces: ifaces.into_iter().map(SnapshotAddr).collect(),
        fields: vec![],
        functions: funcs.into_iter().map(SnapshotAddr).collect(),
        type_parameters: vec![],
        is_abstract: false,
        is_sealed: false,
        is_mixin: false,
        is_enum: false,
        class_id: 0,
    }
}

fn snapshot_with(objects: Vec<(u64, DartObject)>) -> ParsedSnapshot {
    let mut pool = ObjectPool::new();
    for (a, o) in objects {
        pool.insert(SnapshotAddr(a), o);
    }
    ParsedSnapshot { objects: pool, classes: ClassTable::new(), strings: StringTable::new() }
}

#[test]
fn test_decompile_single_function() {
    let data = vec![0x7f, b'E', b'L', b'F', 0, 0, 0, 0, 0xc0, 0x03, 0x5f, 0xd6];
    let file = BinaryFile::from_bytes(data).unwrap();
    let f = function(0x10, "main", None, 0x20);
    let snap = snapshot_with(vec![(0x10, DartObject::Function(f.clone())), (0x20, DartObject::Code(code(0x20, 8, 4, None)))]);
    let (n, calls) =
        decompile_single_function(&f, &file, &snap, Architecture::Arm64, &PoolResolver::new(), &StubResolver::new())
            .unwrap();
    assert!(n >= 1);
    assert!(calls.is_empty());
}

#[test]
fn test_decompile_errors() {
    let data = vec![0x7f, b'E', b'L', b'F', 0, 0, 0, 0, 0xc0, 0x03, 0x5f, 0xd6];
    let file = BinaryFile::from_bytes(data).unwrap();
    let f = function(0x10, "lost", None, 0x99);
    let snap = snapshot_with(vec![(0x20, DartObject::Code(code(0x20, 100, 4, None)))]);
    match decompile_single_function(&f, &file, &snap, Architecture::Arm64, &PoolResolver::new(), &StubResolver::new()) {
        Err(DecompileError::NoCode(n)) => assert_eq!(n, "lost"),
        _ => panic!("expected NoCode"),
    }
    let g = function(0x11, "far", None, 0x20);
    match decompile_single_function(&g, &file, &snap, Architecture::Arm64, &PoolResolver::new(), &StubResolver::new()) {
        Err(DecompileError::ZeroSize(n)) => assert_eq!(n, "far"),
        _ => panic!("expected ZeroSize"),
    }
}

#[test]
fn test_resolve_cross_references() {
    let snap = snapshot_with(vec![
        (0x10, DartObject::Function(function(0x10, "f", Some(0x30), 0x20))),
        (0x20, DartObject::Code(code(0x20, 0, 0, Some(0x40)))),
        (0x30, DartObject::Class(class(0x30, "C", Some(0x31), vec![0x32, 0x33], vec![0x10]))),
        (0x50, DartObject::Closure(DartClosure { addr: SnapshotAddr(0x50), function: SnapshotAddr(0x10), context: None })),
        (0x60, DartObject::Null),
    ]);
    let x = resolve_cross_references(&snap);
    let pairs: Vec<(u64, u64)> = x.iter().map(|(a, b)| (a.0, b.0)).collect();
    assert_eq!(
        pairs,
        vec![(0x10, 0x30), (0x10, 0x20), (0x20, 0x40), (0x30, 0x31), (0x30, 0x32), (0x30, 0x33), (0x50, 0x10)]
    );
}

#[test]
fn test_parse_memory_limit() {
    assert_eq!(parse_memory_limit("512mb"), 512 * 1024 * 1024);
    assert_eq!(parse_memory_limit("1gb"), 1024 * 1024 * 1024);
    assert_eq!(parse_memory_limit("256m"), 256 * 1024 * 1024);
    assert_eq!(parse_memory_limit(" 4K "), 4 * 1024);
    assert_eq!(parse_memory_limit("12 kb"), 12 * 1024);
    assert_eq!(parse_memory_limit("100"), 100);
    assert_eq!(parse_memory_limit("lots"), 512 * 1024 * 1024);
    assert_eq!(parse_memory_limit("xg"), 512 * 1024 * 1024 * 1024 * 1024 * 1024);
}

#[test]
fn test_checked_memory_limit() {
    assert_eq!(checked_memory_limit("2g"), Some(2 * 1024 * 1024 * 1024));
    assert_eq!(checked_memory_limit("17179869184gb"), None);
}

#[test]
fn test_extract_field_name() {
    assert_eq!(extract_field_name("OFFSET_OF(RawClass, name_)").as_deref(), Some("name"));
    assert_eq!(extract_field_name("OFFSET_OF(RawClass,  type__ ) + 8").as_deref(), Some("type"));
    assert_eq!(extract_field_name("OFFSET_OF(RawClass)"), None);
    assert_eq!(extract_field_name("a, b"), None);
}

#[test]
fn test_extract_values() {
    assert_eq!(extract_offset_value("OFFSET_OF(RawClass, name_) = 16; // 24"), Some(24));
    assert_eq!(extract_offset_value("no digits"), None);
    assert_eq!(extract_offset_value("x 99999999999"), None);
    assert_eq!(extract_size_value("static constexpr intptr_t kSize = 48;"), Some(48));
    assert_eq!(extract_size_value("kSize ="), None);
}

#[test]
fn test_parse_raw_object_h() {
    let content = "class RawString : public RawObject {\n  OFFSET_OF(RawString, length_) 8\n  static constexpr intptr_t kSize = 16;\n  OFFSET_OF(RawString, length_) 12\n};\nclass RawArray : public RawObject {\n  OFFSET_OF(RawArray, data_) 24\nclass RawEmpty : x {\n};\n";
    let layouts = parse_raw_object_h(content);
    assert_eq!(layouts.len(), 3);
    assert_eq!(layouts[0].0, "RawString");
    assert_eq!(layouts[0].1, vec![("length_offset".to_string(), 12), ("size".to_string(), 16)]);
    assert_eq!(layouts[1].0, "RawArray");
    assert_eq!(layouts[1].1, vec![("data_offset".to_string(), 24)]);
    assert_eq!(layouts[2].0, "RawEmpty");
    assert!(layouts[2].1.is_empty());
}

#[test]
fn test_parse_class_id_h() {
    let content = "  V(Class)\n  V(Function)\n  V()\n  kOneByteStringCid = 78,\n  kZeroCid = 0,\n";
    let ids = parse_class_id_h(content);
    assert_eq!(
        ids,
        vec![("Class".to_string(), 0), ("Function".to_string(), 1), ("OneByteString".to_string(), 78)]
    );
}

#[test]
fn test_split_version_tag() {
    assert_eq!(split_version_tag("3.2.0"), Some(vec!["3".to_string(), "2".to_string(), "0".to_string()]));
    assert_eq!(split_version_tag("3.2"), None);
    assert_eq!(split_version_tag("1..2").map(|v| v.len()), Some(3));
}

#[test]
fn test_results_summary() {
    let results = vec![
        decomp_result(&"a".to_string(), Ok((3, vec![0x10, 0x20]))),
        decomp_result(&"b".to_string(), Err(DecompileError::NoCode("b".to_string()))),
        decomp_result(&"c".to_string(), Ok((1, vec![0x30]))),
    ];
    assert_eq!(count_outcomes(&results), (2, 1));
    assert_eq!(results[1].ir_len, 0);
    assert_eq!(
        collect_xrefs(&results),
        vec![("a".to_string(), 0x10), ("a".to_string(), 0x20), ("c".to_string(), 0x30)]
    );
}

#[test]
fn test_class_csv_row_and_section_line() {
    let mut c = class(0x30, "Widget", Some(0x1f), vec![], vec![1, 2]);
    c.is_abstract = true;
    assert_eq!(class_csv_row(&c), "Widget,0x1f,true,2,0");
    let c = class(0x30, "Plain", None, vec![], vec![]);
    assert_eq!(class_csv_row(&c), "Plain,,false,0,0");
    let s = SectionInfo { name: ".text".to_string(), virtual_addr: 0x1000, file_offset: 0, size: 0x20, is_executable: true, is_writable: false };
    assert_eq!(section_line(&s), format!("    {:<40} addr=0x{:08x} size=0x{:x} X-", ".text", 0x1000, 0x20));
}

#[test]
fn test_context_strings() {
    let mut data = vec![0x7f, b'E', b'L', b'F', 2, 1, 1, 0, 0, 0, 0, 0, 0, 0, 0, 0, 3, 0, 0xb7, 0, 1, 0, 0, 0];
    data.extend_from_slice(&[0, 0, 0, 0, 0, 0, 0, 0, 64, 0, 0, 0, 0, 0, 0, 0, 0, 0, 0, 0, 0, 0, 0, 0]);
    data.extend_from_slice(&[0, 0, 0, 0, 64, 0, 56, 0, 0, 0, 64, 0, 0, 0, 0, 0]);
    data.extend_from_slice(b"Dart/3.1.4 (beta)");
    let mut ctx = DartDecContext::from_bytes(data).unwrap();
    assert_eq!((ctx.version.major, ctx.version.minor, ctx.version.patch), (3, 1, 4));
    assert_eq!(ctx.get_strings(), Err("Snapshot not parsed".to_string()));
    assert_eq!(ctx.decompile_function("A", "b"), Err("Snapshot not parsed".to_string()));
    let mut strings = StringTable::new();
    strings.strings.push(dart_dec::snapshot::DartString { addr: SnapshotAddr(1), value: "hello".to_string(), is_one_byte: true });
    ctx.snapshot = Some(ParsedSnapshot { objects: ObjectPool::new(), classes: ClassTable::new(), strings });
    assert_eq!(ctx.get_strings(), Ok(vec!["hello".to_string()]));
    assert_eq!(ctx.decompile_function("A", "b"), Ok("// Decompilation placeholder".to_string()));
}
