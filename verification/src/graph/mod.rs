//! Control-flow graphs, dominators, loops, types, structuring and Dart code generation.

pub mod order;
pub mod digraph;
pub mod cfg;
pub mod dominators;
pub mod types;
pub mod ast;
pub mod ast_view;
pub mod loops;
pub mod structuring;
pub mod shape;
pub mod ssa;
pub mod reaching;
