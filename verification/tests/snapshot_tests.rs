use dart_dec::snapshot::{
    ClassTable, DartFunction, DartObject, FunctionKind, ObjectPool, SnapshotAddr, StringTable,
};

#[test]
fn test_object_pool_new() {
    let pool = ObjectPool::new();
    assert!(pool.is_empty());
    assert_eq!(pool.len(), 0);
}

#[test]
fn test_object_pool_insert() {
    let mut pool = ObjectPool::new();
    pool.insert(SnapshotAddr(0x100), DartObject::Mint(42));
    pool.insert(SnapshotAddr(0x108), DartObject::Null);
    assert_eq!(pool.len(), 2);
    assert!(!pool.is_empty());
}

#[test]
fn test_object_pool_get() {
    let mut pool = ObjectPool::new();
    pool.insert(SnapshotAddr(0x100), DartObject::Double(3.14f64.to_bits()));
    let obj = pool.get(&SnapshotAddr(0x100));
    assert!(matches!(obj, Some(DartObject::Double(v)) if (f64::from_bits(*v) - 3.14).abs() < 0.001));
}

#[test]
fn test_object_pool_functions() {
    let mut pool = ObjectPool::new();
    pool.insert(
        SnapshotAddr(0x100),
        DartObject::Function(DartFunction {
            addr: SnapshotAddr(0x100),
            name: "main".to_string(),
            owner_class: None,
            code_addr: SnapshotAddr(0x200),
            kind: FunctionKind::RegularFunction,
            is_static: true,
            is_async: false,
            is_generator: false,
            parameter_names: vec![],
            return_type: Some("void".to_string()),
        }),
    );
    pool.insert(SnapshotAddr(0x200), DartObject::Mint(10));
    let funcs = pool.functions();
    assert_eq!(funcs.len(), 1);
}

#[test]
fn test_class_table_empty() {
    let table = ClassTable::new();
    assert!(table.is_empty());
    assert_eq!(table.len(), 0);
}

#[test]
fn test_string_table_empty() {
    let table = StringTable::new();
    assert!(table.is_empty());
    assert_eq!(table.len(), 0);
}

#[test]
fn test_dart_object_variants() {
    let objs: Vec<DartObject> = vec![
        DartObject::Mint(42),
        DartObject::Double(3.14f64.to_bits()),
        DartObject::Bool(true),
        DartObject::Null,
        DartObject::SentinelObject,
    ];
    assert_eq!(objs.len(), 5);
}

#[test]
fn object_pool_insert_replaces_existing_address() {
    let mut pool = ObjectPool::new();
    pool.insert(SnapshotAddr(1), DartObject::Mint(1));
    pool.insert(SnapshotAddr(2), DartObject::Mint(2));
    pool.insert(SnapshotAddr(1), DartObject::Mint(3));
    assert_eq!(pool.len(), 2);
    assert!(matches!(pool.get(&SnapshotAddr(1)), Some(DartObject::Mint(3))));
    assert!(pool.get(&SnapshotAddr(9)).is_none());
    assert_eq!(pool.iter()[0].0, SnapshotAddr(1));
}
