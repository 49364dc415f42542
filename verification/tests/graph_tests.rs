use dart_dec::graph::ast::{generate_dart_code, AstExpr, AstNode, BinOp, DartLiteral, StringPart, expr_to_dart};
use dart_dec::graph::cfg::{EdgeKind, CFG};
use dart_dec::graph::dominators::DominatorTree;
use dart_dec::graph::loops::{detect_loops, LoopKind};
use dart_dec::graph::ssa::{remap_dest_reg, ssa_transform, ssa_transform_in_order};
use dart_dec::graph::structuring::{structure_cfg, ir_to_ast_stmt, operand_to_expr};
use dart_dec::graph::types::propagate_types;
use dart_dec::lifter::ir::{BinOpKind, Condition, Operand, Reg, IR};
use petgraph::graph::NodeIndex;

fn make_simple_ir() -> Vec<IR> {
    vec![
        IR::Assign(Reg(0), Operand::Imm(42)),
        IR::Assign(Reg(1), Operand::Imm(10)),
        IR::BinOp { dst: Reg(2), op: BinOpKind::Add, lhs: Operand::Reg(Reg(0)), rhs: Operand::Reg(Reg(1)) },
        IR::Return(Some(Operand::Reg(Reg(2)))),
    ]
}

fn make_branching_ir() -> Vec<IR> {
    vec![
        IR::Assign(Reg(0), Operand::Imm(5)),
        IR::Compare { lhs: Operand::Reg(Reg(0)), rhs: Operand::Imm(10) },
        IR::Branch { condition: Condition::LessThan, true_target: 3, false_target: 5 },
        IR::Assign(Reg(1), Operand::Imm(1)),
        IR::Jump(7),
        IR::Assign(Reg(1), Operand::Imm(0)),
        IR::Jump(7),
        IR::Return(Some(Operand::Reg(Reg(1)))),
    ]
}

fn make_loop_ir() -> Vec<IR> {
    vec![
        IR::Assign(Reg(0), Operand::Imm(0)),
        IR::Compare { lhs: Operand::Reg(Reg(0)), rhs: Operand::Imm(10) },
        IR::Branch { condition: Condition::LessThan, true_target: 3, false_target: 6 },
        IR::BinOp { dst: Reg(0), op: BinOpKind::Add, lhs: Operand::Reg(Reg(0)), rhs: Operand::Imm(1) },
        IR::Jump(1),
        IR::Assign(Reg(99), Operand::Imm(0)),
        IR::Return(Some(Operand::Reg(Reg(0)))),
    ]
}

#[test]
fn test_cfg_build_simple() {
    let ir = make_simple_ir();
    let cfg = CFG::build(&ir);
    assert!(cfg.num_blocks() >= 1);
}

#[test]
fn test_cfg_build_branching() {
    let ir = make_branching_ir();
    let cfg = CFG::build(&ir);
    assert!(cfg.num_blocks() >= 3);
}

#[test]
fn test_cfg_build_loop() {
    let ir = make_loop_ir();
    let cfg = CFG::build(&ir);
    assert!(cfg.num_blocks() >= 2);
}

#[test]
fn test_cfg_dot_export() {
    let ir = make_branching_ir();
    let cfg = CFG::build(&ir);
    let dot = cfg.to_dot();
    assert!(dot.contains("digraph CFG"));
    assert!(dot.contains("BB"));
}

#[test]
fn test_dominator_tree() {
    let ir = make_branching_ir();
    let cfg = CFG::build(&ir);
    let dom_tree = DominatorTree::compute(&cfg);
    let entry_id = cfg.graph[NodeIndex::new(cfg.entry)].id;
    for block in cfg.blocks() {
        assert!(dom_tree.dominates(entry_id, block.id));
    }
}

#[test]
fn test_loop_detection() {
    let ir = make_loop_ir();
    let cfg = CFG::build(&ir);
    let dom_tree = DominatorTree::compute(&cfg);
    let loops = detect_loops(&cfg, &dom_tree);
    let _ = loops;
}

#[test]
fn test_ssa_transform() {
    let ir = make_simple_ir();
    let mut cfg = CFG::build(&ir);
    let dom_tree = DominatorTree::compute(&cfg);
    ssa_transform(&mut cfg, &dom_tree);
}

#[test]
fn test_structuring() {
    let ir = make_simple_ir();
    let cfg = CFG::build(&ir);
    let dom_tree = DominatorTree::compute(&cfg);
    let ast = structure_cfg(&cfg, &dom_tree);
    let code = generate_dart_code(&ast, 0);
    assert!(!code.is_empty());
}

#[test]
fn test_type_propagation() {
    let ir = make_simple_ir();
    let cfg = CFG::build(&ir);
    let types = propagate_types(&cfg);
    assert_eq!(types.get(&0), Some(&"int".to_string()));
}

#[test]
fn test_ast_codegen_if() {
    let ast = AstNode::If {
        condition: AstExpr::BinaryOp(
            Box::new(AstExpr::Variable("x".to_string())),
            BinOp::GreaterThan,
            Box::new(AstExpr::Literal(DartLiteral::Int(0))),
        ),
        then_body: Box::new(AstNode::Return(Some(AstExpr::Literal(DartLiteral::Int(1))))),
        else_body: Some(Box::new(AstNode::Return(Some(AstExpr::Literal(DartLiteral::Int(0)))))),
    };
    let code = generate_dart_code(&ast, 0);
    assert!(code.contains("if"));
    assert!(code.contains("else"));
    assert!(code.contains("return"));
}

#[test]
fn test_ast_codegen_while() {
    let ast = AstNode::While {
        condition: AstExpr::BinaryOp(
            Box::new(AstExpr::Variable("i".to_string())),
            BinOp::LessThan,
            Box::new(AstExpr::Literal(DartLiteral::Int(10))),
        ),
        body: Box::new(AstNode::ExprStatement(AstExpr::Variable("i++".to_string()))),
    };
    let code = generate_dart_code(&ast, 0);
    assert!(code.contains("while"));
}

#[test]
fn test_ast_codegen_var_decl() {
    let ast = AstNode::VarDecl {
        name: "count".to_string(),
        dart_type: Some("int".to_string()),
        value: Some(AstExpr::Literal(DartLiteral::Int(42))),
        is_final: true,
        is_late: false,
    };
    let code = generate_dart_code(&ast, 0);
    assert!(code.contains("42"));
}

#[test]
fn test_ast_codegen_list_literal() {
    let expr = AstExpr::ListLiteral(vec![
        AstExpr::Literal(DartLiteral::Int(1)),
        AstExpr::Literal(DartLiteral::Int(2)),
        AstExpr::Literal(DartLiteral::Int(3)),
    ]);
    let node = AstNode::ExprStatement(expr);
    let code = generate_dart_code(&node, 0);
    assert!(code.contains("[1, 2, 3]"));
}

#[test]
fn test_ast_codegen_map_literal() {
    let expr = AstExpr::MapLiteral(vec![(
        AstExpr::Literal(DartLiteral::String("key".to_string())),
        AstExpr::Literal(DartLiteral::Int(1)),
    )]);
    let node = AstNode::ExprStatement(expr);
    let code = generate_dart_code(&node, 0);
    assert!(code.contains("key"));
}

#[test]
fn test_ast_codegen_null_assert() {
    let expr = AstExpr::NullAssert(Box::new(AstExpr::Variable("x".to_string())));
    let node = AstNode::ExprStatement(expr);
    let code = generate_dart_code(&node, 0);
    assert!(code.contains("x!"));
}

#[test]
fn test_ast_codegen_is_check() {
    let expr = AstExpr::IsCheck(Box::new(AstExpr::Variable("obj".to_string())), "String".to_string());
    let node = AstNode::ExprStatement(expr);
    let code = generate_dart_code(&node, 0);
    assert!(code.contains("obj is String"));
}

#[test]
fn test_ast_codegen_string_interpolation() {
    let expr = AstExpr::StringInterpolation(vec![
        StringPart::Literal("Hello, ".to_string()),
        StringPart::Interpolation(AstExpr::Variable("name".to_string())),
        StringPart::Literal("!".to_string()),
    ]);
    let node = AstNode::ExprStatement(expr);
    let code = generate_dart_code(&node, 0);
    assert!(code.contains("${name}"));
}

// ----- exact layouts, edges and texts -----

#[test]
fn cfg_branching_blocks_tile_the_instructions() {
    let cfg = CFG::build(&make_branching_ir());
    let blocks = cfg.blocks();
    let ranges: Vec<(u32, u64, u64, usize)> =
        blocks.iter().map(|b| (b.id, b.start_address, b.end_address, b.instructions.len())).collect();
    assert_eq!(ranges, vec![(0, 0, 3, 3), (3, 3, 5, 2), (5, 5, 7, 2), (7, 7, 8, 1)]);
    assert_eq!(cfg.entry, 0);
    let b0 = cfg.block(0).unwrap();
    assert_eq!(b0.successors, vec![3, 5]);
    assert_eq!(cfg.block(7).unwrap().predecessors, vec![3, 5]);
    assert!(cfg.block(4).is_none());
}

#[test]
fn cfg_empty_list_has_one_empty_entry_block() {
    let cfg = CFG::build(&[]);
    assert_eq!(cfg.num_blocks(), 1);
    let b = &cfg.graph[NodeIndex::new(cfg.entry)];
    assert_eq!(b.id, 0);
    assert!(b.instructions.is_empty());
    assert!(cfg.block(0).is_none());
}

#[test]
fn cfg_target_beyond_the_list_ends_the_last_block_there() {
    let ir = vec![IR::Jump(100), IR::Return(None)];
    let cfg = CFG::build(&ir);
    let ends: Vec<(u32, u64)> = cfg.blocks().iter().map(|b| (b.id, b.end_address)).collect();
    assert_eq!(ends, vec![(0, 1), (1, 100)]);
    assert!(cfg.block(0).unwrap().successors.is_empty());
}

#[test]
fn cfg_dot_lists_nodes_and_colored_edges() {
    let ir = vec![
        IR::Branch { condition: Condition::Equal, true_target: 1, false_target: 2 },
        IR::Return(None),
        IR::Return(None),
    ];
    let cfg = CFG::build(&ir);
    let dot = cfg.to_dot();
    assert_eq!(
        dot,
        "digraph CFG {\n  node [shape=box, fontname=\"monospace\"];\n  0 [label=\"BB0 (1 instrs)\"];\n  1 [label=\"BB1 (1 instrs)\"];\n  2 [label=\"BB2 (1 instrs)\"];\n  0 -> 1 [color=green];\n  0 -> 2 [color=red];\n}\n"
    );
    let _ = EdgeKind::Unconditional;
}

#[test]
fn dominators_of_a_diamond() {
    let cfg = CFG::build(&make_branching_ir());
    let dt = DominatorTree::compute(&cfg);
    assert_eq!(dt.idom(7), Some(0));
    assert_eq!(dt.idom(3), Some(0));
    assert_eq!(dt.idom(0), None);
    assert!(!dt.dominates(3, 7));
    assert!(dt.dominates(5, 5));
    assert_eq!(dt.frontier(3), &[7]);
    assert_eq!(dt.frontier(5), &[7]);
    assert!(dt.frontier(0).is_empty());
}

#[test]
fn loop_detection_finds_the_while_loop() {
    let cfg = CFG::build(&make_loop_ir());
    let dt = DominatorTree::compute(&cfg);
    let loops = detect_loops(&cfg, &dt);
    assert_eq!(loops.len(), 1);
    assert_eq!(loops[0].header, 1);
    assert_eq!(loops[0].body, vec![1, 3]);
    assert_eq!(loops[0].back_edges, vec![(3, 1)]);
    assert_eq!(loops[0].kind, LoopKind::While);
    assert_eq!(loops[0].exit_blocks, vec![1]);
}

#[test]
fn ssa_renames_each_definition() {
    let mut cfg = CFG::build(&make_simple_ir());
    let dt = DominatorTree::compute(&cfg);
    ssa_transform_in_order(&mut cfg, &dt, &vec![0, 1, 2]);
    let b = cfg.block(0).unwrap();
    assert_eq!(b.instructions[0].dest_reg(), Some(Reg(1)));
    assert_eq!(b.instructions[1].dest_reg(), Some(Reg(101)));
    assert_eq!(b.instructions[2].dest_reg(), Some(Reg(201)));
}

#[test]
fn ssa_puts_a_phi_at_the_join() {
    let mut cfg = CFG::build(&make_branching_ir());
    let dt = DominatorTree::compute(&cfg);
    ssa_transform_in_order(&mut cfg, &dt, &vec![0, 1]);
    let join = cfg.block(7).unwrap();
    match &join.instructions[0] {
        IR::Phi { dst, sources } => {
            assert_eq!(*dst, Reg(103));
            assert_eq!(sources.len(), 2);
        }
        other => panic!("expected a phi, found {:?}", other),
    }
}

#[test]
fn remap_replaces_the_destination() {
    let ir = remap_dest_reg(IR::Assign(Reg(3), Operand::Imm(1)), Reg(301));
    assert_eq!(ir.dest_reg(), Some(Reg(301)));
    let ret = remap_dest_reg(IR::Return(None), Reg(7));
    assert_eq!(ret.dest_reg(), None);
}

#[test]
fn statements_of_instructions() {
    let stmt = ir_to_ast_stmt(&IR::Assign(Reg(2), Operand::Imm(-5))).unwrap();
    assert_eq!(generate_dart_code(&stmt, 1), "  v2 = -5;");
    let stmt = ir_to_ast_stmt(&IR::BinOp {
        dst: Reg(4),
        op: BinOpKind::Asr,
        lhs: Operand::Reg(Reg(1)),
        rhs: Operand::Imm(2),
    })
    .unwrap();
    assert_eq!(generate_dart_code(&stmt, 0), "var v4 = v1 >> 2;");
    assert!(ir_to_ast_stmt(&IR::Jump(3)).is_none());
    assert_eq!(expr_to_dart(&operand_to_expr(&Operand::StackSlot(-8))), "sp[-8]");
}

#[test]
fn codegen_exact_texts() {
    let s = AstExpr::Literal(DartLiteral::String("it's".to_string()));
    assert_eq!(expr_to_dart(&s), "'it\\'s'");
    let call = AstExpr::MethodCall {
        receiver: Some(Box::new(AstExpr::Variable("a".to_string()))),
        method: "m".to_string(),
        args: vec![AstExpr::Literal(DartLiteral::Int(1)), AstExpr::Literal(DartLiteral::Bool(false))],
        type_args: vec!["int".to_string(), "T".to_string()],
    };
    assert_eq!(expr_to_dart(&call), "a.m<int, T>(1, false)");
    let decl = AstNode::VarDecl {
        name: "x".to_string(),
        dart_type: Some("int".to_string()),
        value: None,
        is_final: false,
        is_late: true,
    };
    assert_eq!(generate_dart_code(&decl, 2), "    late int x;");
    let f = AstNode::For {
        init: Box::new(AstNode::ExprStatement(AstExpr::Variable("i = 0".to_string()))),
        condition: AstExpr::Variable("i < n".to_string()),
        update: Box::new(AstNode::ExprStatement(AstExpr::Variable("i++".to_string()))),
        body: Box::new(AstNode::Break),
    };
    assert_eq!(generate_dart_code(&f, 0), "for (i = 0;; i < n; i++;) {\n  break;\n}");
}

#[test]
fn structuring_a_diamond_gives_if_else() {
    let cfg = CFG::build(&make_branching_ir());
    let dt = DominatorTree::compute(&cfg);
    let ast = structure_cfg(&cfg, &dt);
    let code = generate_dart_code(&ast, 0);
    assert!(code.contains("if (_cmp_lhs < _cmp_rhs) {"));
    assert!(code.contains("} else {"));
}

#[test]
fn test_structure_branch_shape() {
    let cfg = CFG::build(&make_branching_ir());
    let dt = DominatorTree::compute(&cfg);
    let ast = structure_cfg(&cfg, &dt);
    let stmts = match ast {
        AstNode::Block(stmts) => stmts,
        _ => panic!("expected a block"),
    };
    assert_eq!(stmts.len(), 2);
    assert!(matches!(&stmts[0], AstNode::ExprStatement(_)));
    match &stmts[1] {
        AstNode::If { then_body, else_body, .. } => {
            match then_body.as_ref() {
                AstNode::Block(inner) => {
                    assert_eq!(inner.len(), 2);
                    assert!(matches!(&inner[1], AstNode::Return(Some(_))));
                }
                _ => panic!("expected the then branch to be a block"),
            }
            assert!(matches!(else_body.as_deref(), Some(AstNode::ExprStatement(_))));
        }
        _ => panic!("expected an if"),
    }
}

#[test]
fn test_declaration_keyword_before_type() {
    let decl = AstNode::VarDecl {
        name: "count".to_string(),
        dart_type: Some("int".to_string()),
        value: Some(AstExpr::Literal(DartLiteral::Int(42))),
        is_final: true,
        is_late: false,
    };
    assert_eq!(generate_dart_code(&decl, 0), "final int count = 42;");
    let typed = AstNode::VarDecl {
        name: "count".to_string(),
        dart_type: Some("int".to_string()),
        value: Some(AstExpr::Literal(DartLiteral::Int(42))),
        is_final: false,
        is_late: false,
    };
    assert_eq!(generate_dart_code(&typed, 0), "int count = 42;");
    let untyped = AstNode::VarDecl {
        name: "v".to_string(),
        dart_type: None,
        value: None,
        is_final: false,
        is_late: false,
    };
    assert_eq!(generate_dart_code(&untyped, 0), "var v;");
}

fn var(n: &str) -> Box<AstExpr> {
    Box::new(AstExpr::Variable(n.to_string()))
}

#[test]
fn test_binary_operands_parenthesized() {
    let sum = AstExpr::BinaryOp(var("a"), BinOp::Add, var("b"));
    let e = AstExpr::BinaryOp(Box::new(sum), BinOp::Mul, var("c"));
    assert_eq!(expr_to_dart(&e), "(a + b) * c");
    let prod = AstExpr::BinaryOp(var("a"), BinOp::Mul, var("b"));
    let e = AstExpr::BinaryOp(Box::new(prod), BinOp::Add, var("c"));
    assert_eq!(expr_to_dart(&e), "a * b + c");
    let diff = AstExpr::BinaryOp(var("b"), BinOp::Sub, var("c"));
    let e = AstExpr::BinaryOp(var("a"), BinOp::Sub, Box::new(diff));
    assert_eq!(expr_to_dart(&e), "a - (b - c)");
    let sum = AstExpr::BinaryOp(var("b"), BinOp::Add, var("c"));
    let e = AstExpr::BinaryOp(var("a"), BinOp::Assign, Box::new(sum));
    assert_eq!(expr_to_dart(&e), "a = b + c");
    let eq = AstExpr::BinaryOp(var("a"), BinOp::Equal, var("b"));
    let e = AstExpr::UnaryOp(dart_dec::graph::ast::UnaryOp::Not, Box::new(eq));
    assert_eq!(expr_to_dart(&e), "!(a == b)");
}

#[test]
fn ssa_uses_read_the_reaching_version() {
    let mut cfg = CFG::build(&make_simple_ir());
    let dt = DominatorTree::compute(&cfg);
    ssa_transform(&mut cfg, &dt);
    let b = cfg.block(0).unwrap();
    let a = b.instructions[0].dest_reg().unwrap();
    let c = b.instructions[1].dest_reg().unwrap();
    let x = b.instructions[2].dest_reg().unwrap();
    assert!(a != c && c != x && a != x);
    match &b.instructions[2] {
        IR::BinOp { lhs: Operand::Reg(l), rhs: Operand::Reg(r), .. } => {
            assert_eq!(*l, a);
            assert_eq!(*r, c);
        }
        other => panic!("expected a binary operation, found {:?}", other),
    }
    match &b.instructions[3] {
        IR::Return(Some(Operand::Reg(r))) => assert_eq!(*r, x),
        other => panic!("expected a return, found {:?}", other),
    }
}

#[test]
fn ssa_phi_sources_and_join_uses() {
    let mut cfg = CFG::build(&make_branching_ir());
    let dt = DominatorTree::compute(&cfg);
    ssa_transform_in_order(&mut cfg, &dt, &vec![0, 1]);
    let then_def = cfg.block(3).unwrap().instructions[0].dest_reg().unwrap();
    let else_def = cfg.block(5).unwrap().instructions[0].dest_reg().unwrap();
    assert_eq!((then_def, else_def), (Reg(101), Reg(102)));
    let entry = cfg.block(0).unwrap();
    match &entry.instructions[1] {
        IR::Compare { lhs: Operand::Reg(r), .. } => assert_eq!(*r, Reg(1)),
        other => panic!("expected a compare, found {:?}", other),
    }
    let join = cfg.block(7).unwrap();
    match &join.instructions[0] {
        IR::Phi { dst, sources } => {
            assert_eq!(*dst, Reg(103));
            let mut regs: Vec<Reg> = sources.iter().map(|s| s.1).collect();
            regs.sort_by_key(|r| r.0);
            assert_eq!(regs, vec![Reg(101), Reg(102)]);
        }
        other => panic!("expected a phi, found {:?}", other),
    }
    match &join.instructions[1] {
        IR::Return(Some(Operand::Reg(r))) => assert_eq!(*r, Reg(103)),
        other => panic!("expected a return, found {:?}", other),
    }
}

#[test]
fn dominators_follow_the_chain_and_skip_unreachable_blocks() {
    let ir = vec![IR::Jump(1), IR::Jump(2), IR::Return(None), IR::Return(None)];
    let cfg = CFG::build(&ir);
    let dt = DominatorTree::compute(&cfg);
    assert_eq!(dt.idom(1), Some(0));
    assert_eq!(dt.idom(2), Some(1));
    assert_eq!(dt.idom(3), None);
    assert!(dt.dominates(0, 2));
    assert!(!dt.dominates(2, 1));
    assert!(!dt.dominates(0, 3));
}

#[test]
fn cfg_blocks_concatenate_and_end_at_terminators() {
    let ir = make_branching_ir();
    let cfg = CFG::build(&ir);
    let mut joined: Vec<IR> = Vec::new();
    for b in cfg.blocks() {
        let n = b.instructions.len();
        for (k, x) in b.instructions.iter().enumerate() {
            if k + 1 < n {
                assert!(!x.is_terminator());
            }
        }
        joined.extend(b.instructions.iter().cloned());
    }
    assert_eq!(format!("{:?}", joined), format!("{:?}", ir));
}

#[test]
fn cfg_leaders_and_successors_follow_the_instructions() {
    let cfg = CFG::build(&make_loop_ir());
    let ids: Vec<u32> = cfg.blocks().iter().map(|b| b.id).collect();
    assert_eq!(ids, vec![0, 1, 3, 5, 6]);
    let succs: Vec<Vec<u32>> = cfg.blocks().iter().map(|b| b.successors.clone()).collect();
    assert_eq!(succs, vec![vec![1], vec![3, 6], vec![1], vec![6], vec![]]);
}
