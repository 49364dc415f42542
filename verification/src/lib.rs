use vstd::prelude::*;

pub mod text;
pub mod binary;
pub mod snapshot;
pub mod disasm;
pub mod lifter;
pub mod graph;
pub mod rx;
pub mod scan;
pub mod output;
pub mod cli;
pub mod deobf;
pub mod patterns;
pub mod context;

verus! {

} // verus!
