use dart_dec::deobf::control_flow::deobfuscate_control_flow;
use dart_dec::deobf::string_decrypt::{decrypt_strings, try_xor_decrypt};
use dart_dec::deobf::{deobfuscate, recover_symbols, suggest_class_name, suggest_function_name, DeobfConfig};
use dart_dec::graph::ast::{generate_dart_code, AstExpr, AstNode, BinOp, DartLiteral};
use dart_dec::patterns::recover_cascade;
use dart_dec::snapshot::{DartClass, DartFunction, DartObject, FunctionKind, ObjectPool, SnapshotAddr};

fn var(n: &str) -> AstExpr {
    AstExpr::Variable(n.to_string())
}

fn lit_int(v: i64) -> AstExpr {
    AstExpr::Literal(DartLiteral::Int(v))
}

fn call(m: &str) -> AstNode {
    AstNode::ExprStatement(AstExpr::MethodCall { receiver: None, method: m.to_string(), args: vec![], type_args: vec![] })
}

fn set_state(v: i64) -> AstNode {
    AstNode::ExprStatement(AstExpr::BinaryOp(Box::new(var("state")), BinOp::Assign, Box::new(lit_int(v))))
}

fn text(n: &AstNode) -> String {
    generate_dart_code(n, 0)
}

fn string_decl(name: &str, value: &str) -> AstNode {
    AstNode::VarDecl {
        name: name.to_string(),
        dart_type: Some("String".to_string()),
        value: Some(AstExpr::Literal(DartLiteral::String(value.to_string()))),
        is_final: true,
        is_late: false,
    }
}

#[test]
fn test_try_xor_decrypt() {
    let bytes: Vec<u8> = b"hi there".iter().map(|b| b ^ 0x42).collect();
    assert_eq!(try_xor_decrypt(&bytes, 0x42).as_deref(), Some("hi there"));
    assert_eq!(try_xor_decrypt(&[0x00], 0x00), None);
    assert_eq!(try_xor_decrypt(&[0xc3, 0xa9], 0x00), None);
    assert_eq!(try_xor_decrypt(&[], 0x42).as_deref(), Some(""));
}

#[test]
fn test_flattened_state_machine() {
    let switch = AstNode::Switch {
        subject: var("state"),
        cases: vec![
            (lit_int(2), AstNode::Block(vec![call("bar"), set_state(9)])),
            (lit_int(0), AstNode::Block(vec![call("foo"), set_state(2), AstNode::Break])),
        ],
        default: None,
    };
    let mut ast = AstNode::Block(vec![AstNode::While {
        condition: AstExpr::Literal(DartLiteral::Bool(true)),
        body: Box::new(AstNode::Block(vec![switch])),
    }]);
    deobfuscate_control_flow(&mut ast);
    let expected = AstNode::Block(vec![AstNode::Block(vec![AstNode::Block(vec![call("foo")]), AstNode::Block(vec![call("bar")])])]);
    assert_eq!(text(&ast), text(&expected));
}

#[test]
fn test_state_machine_loop_stops() {
    let switch = AstNode::Switch {
        subject: var("_state"),
        cases: vec![(lit_int(0), AstNode::Block(vec![call("a"), set_state(0)]))],
        default: None,
    };
    let mut ast = AstNode::Block(vec![AstNode::While { condition: lit_int(1), body: Box::new(switch) }]);
    deobfuscate_control_flow(&mut ast);
    assert_eq!(text(&ast), "a();");
}

#[test]
fn test_opaque_predicate_and_dead_code() {
    let cond = AstExpr::BinaryOp(Box::new(AstExpr::BinaryOp(Box::new(var("x")), BinOp::Mul, Box::new(var("x")))), BinOp::GreaterOrEqual, Box::new(lit_int(0)));
    let mut ast = AstNode::Block(vec![
        AstNode::If { condition: cond, then_body: Box::new(call("real")), else_body: None },
        AstNode::If {
            condition: AstExpr::Literal(DartLiteral::Bool(false)),
            then_body: Box::new(call("junk")),
            else_body: Some(Box::new(call("other"))),
        },
        AstNode::Return(None),
        call("dead"),
    ]);
    deobfuscate_control_flow(&mut ast);
    assert_eq!(text(&ast), "real();\nother();\nreturn;");
}

#[test]
fn test_decrypt_strings_patterns() {
    let enc: Vec<AstExpr> = b"secret".iter().map(|b| lit_int((b ^ 0x17) as i64)).collect();
    let mut ast = AstNode::Block(vec![
        AstNode::VarDecl {
            name: "a".to_string(),
            dart_type: None,
            value: Some(AstExpr::MethodCall {
                receiver: None,
                method: "_decrypt".to_string(),
                args: vec![AstExpr::ListLiteral(enc), lit_int(0x17)],
                type_args: vec![],
            }),
            is_final: false,
            is_late: false,
        },
        AstNode::VarDecl {
            name: "b".to_string(),
            dart_type: None,
            value: Some(AstExpr::MethodCall {
                receiver: Some(Box::new(var("String"))),
                method: "fromCharCodes".to_string(),
                args: vec![AstExpr::ListLiteral(vec![lit_int(72), lit_int(0xD800), lit_int(105)])],
                type_args: vec![],
            }),
            is_final: false,
            is_late: false,
        },
        AstNode::VarDecl {
            name: "c".to_string(),
            dart_type: None,
            value: Some(AstExpr::BinaryOp(
                Box::new(AstExpr::Literal(DartLiteral::String("he".to_string()))),
                BinOp::Add,
                Box::new(AstExpr::Literal(DartLiteral::String("y".to_string()))),
            )),
            is_final: false,
            is_late: false,
        },
    ]);
    decrypt_strings(&mut ast);
    let expected = AstNode::Block(vec![string_decl("a", "secret"), string_decl("b", "Hi"), string_decl("c", "hey")]);
    assert_eq!(text(&ast), text(&expected));
}

#[test]
fn test_decrypt_default_key() {
    let enc: Vec<AstExpr> = b"ok".iter().map(|b| lit_int((b ^ 0x42) as i64)).collect();
    let mut ast = AstNode::Block(vec![AstNode::VarDecl {
        name: "k".to_string(),
        dart_type: None,
        value: Some(AstExpr::MethodCall { receiver: None, method: "decode".to_string(), args: vec![AstExpr::ListLiteral(enc)], type_args: vec![] }),
        is_final: false,
        is_late: false,
    }]);
    decrypt_strings(&mut ast);
    assert_eq!(text(&ast), text(&AstNode::Block(vec![string_decl("k", "ok")])));
}

#[test]
fn test_recover_cascade() {
    let mut ast = AstNode::Block(vec![
        AstNode::VarDecl {
            name: "b".to_string(),
            dart_type: None,
            value: Some(AstExpr::ConstructorCall { class_name: "Builder".to_string(), constructor_name: None, args: vec![] }),
            is_final: false,
            is_late: false,
        },
        AstNode::ExprStatement(AstExpr::MethodCall { receiver: Some(Box::new(var("b"))), method: "add".to_string(), args: vec![lit_int(1)], type_args: vec![] }),
        AstNode::ExprStatement(AstExpr::BinaryOp(
            Box::new(AstExpr::FieldAccess(Box::new(var("b")), "size".to_string())),
            BinOp::Assign,
            Box::new(lit_int(2)),
        )),
        AstNode::Return(Some(var("b"))),
    ]);
    recover_cascade(&mut ast);
    assert_eq!(text(&ast), "final b = Builder()\n  ..add(1)\n  ...size = 2;\nreturn b;");
}

#[test]
fn test_cascade_needs_two_calls() {
    let stmts = vec![
        AstNode::VarDecl { name: "b".to_string(), dart_type: None, value: Some(var("x")), is_final: false, is_late: false },
        AstNode::ExprStatement(AstExpr::MethodCall { receiver: Some(Box::new(var("b"))), method: "add".to_string(), args: vec![], type_args: vec![] }),
    ];
    let before = text(&AstNode::Block(vec![
        AstNode::VarDecl { name: "b".to_string(), dart_type: None, value: Some(var("x")), is_final: false, is_late: false },
        AstNode::ExprStatement(AstExpr::MethodCall { receiver: Some(Box::new(var("b"))), method: "add".to_string(), args: vec![], type_args: vec![] }),
    ]));
    let mut ast = AstNode::Block(stmts);
    recover_cascade(&mut ast);
    assert_eq!(text(&ast), before);
}

fn func(addr: u64, name: &str, ret: Option<&str>) -> DartFunction {
    DartFunction {
        addr: SnapshotAddr(addr),
        name: name.to_string(),
        owner_class: None,
        code_addr: SnapshotAddr(0),
        kind: FunctionKind::RegularFunction,
        is_static: false,
        is_async: false,
        is_generator: false,
        parameter_names: vec![],
        return_type: ret.map(|s| s.to_string()),
    }
}

fn class_with(funcs: Vec<u64>) -> DartClass {
    DartClass {
        addr: SnapshotAddr(1),
        name: "C".to_string(),
        library: "lib".to_string(),
        super_class: None,
        interfaces: vec![],
        fields: vec![],
        functions: funcs.into_iter().map(SnapshotAddr).collect(),
        type_parameters: vec![],
        is_abstract: false,
        is_sealed: false,
        is_mixin: false,
        is_enum: false,
        class_id: 0,
    }
}

#[test]
fn test_suggest_class_name() {
    let mut pool = ObjectPool::new();
    pool.insert(SnapshotAddr(10), DartObject::Function(func(10, "build", None)));
    pool.insert(SnapshotAddr(11), DartObject::Function(func(11, "createState", None)));
    pool.insert(SnapshotAddr(12), DartObject::Function(func(12, "initState", None)));
    pool.insert(SnapshotAddr(13), DartObject::Function(func(13, "dispose", None)));
    assert_eq!(suggest_class_name(&class_with(vec![10, 11]), &pool).as_deref(), Some("StatefulWidget"));
    assert_eq!(suggest_class_name(&class_with(vec![10, 99]), &pool).as_deref(), Some("StatelessWidget"));
    assert_eq!(suggest_class_name(&class_with(vec![12, 13]), &pool).as_deref(), Some("State"));
    assert_eq!(suggest_class_name(&class_with(vec![12]), &pool), None);
}

#[test]
fn test_suggest_function_name() {
    let pool = ObjectPool::new();
    assert_eq!(suggest_function_name(&func(1, "getHttpData", None), &pool).as_deref(), Some("fetch_getHttpData"));
    assert_eq!(suggest_function_name(&func(1, "x", Some("Widget")), &pool).as_deref(), Some("build"));
    assert_eq!(suggest_function_name(&func(1, "x", Some("int")), &pool), None);
}

#[test]
fn test_deobfuscate_all_passes() {
    let config = DeobfConfig::default();
    assert!(config.recover_symbols && config.decrypt_strings && config.deobf_control_flow && config.apply_heuristics);
    let pool = ObjectPool::new();
    let mut ast = AstNode::Block(vec![AstNode::Return(None), call("dead")]);
    recover_symbols(&pool, &mut ast);
    deobfuscate(&pool, &mut ast, &config);
    assert_eq!(text(&ast), "return;");
}
