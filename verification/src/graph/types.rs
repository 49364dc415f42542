//! Type propagation: the Dart types that the instructions reveal for registers.

use vstd::prelude::*;
use ahash::AHashMap;
use crate::lifter::ir::{IR, IRView, CallKind, CallKindView, StubCallKind, Operand, OperandView, ir_list_view};
use crate::text::{owned, str_starts_with, starts_with_seq};
use super::cfg::{CFG, BasicBlock, sort_blocks, deref_blocks};
use super::digraph::graph_nodes;

verus! {

/// What a map from register numbers to type names holds.
pub uninterp spec fn type_map_contents(m: AHashMap<u16, String>) -> Map<u16, Seq<char>>;

/// `AHashMap::new` for types: an empty map.
#[verifier::external_body]
fn type_map_new() -> (m: AHashMap<u16, String>)
    ensures
        type_map_contents(m).is_empty(),
{
    AHashMap::new()
}

/// `AHashMap::insert` for types: the register now maps to the name.
#[verifier::external_body]
fn type_map_insert(m: &mut AHashMap<u16, String>, k: u16, v: String)
    ensures
        type_map_contents(*final(m)) == type_map_contents(*old(m)).insert(k, v@),
{
    m.insert(k, v);
}

/// The type a pool entry's resolved text reveals: a quoted string, or an
/// `int:`, `double:` or `bool:` constant.
pub open spec fn pool_text_type(name: Seq<char>) -> Option<Seq<char>> {
    if starts_with_seq(name, "\""@) {
        Some("String"@)
    } else if starts_with_seq(name, "int:"@) {
        Some("int"@)
    } else if starts_with_seq(name, "double:"@) {
        Some("double"@)
    } else if starts_with_seq(name, "bool:"@) {
        Some("bool"@)
    } else {
        None
    }
}

/// The type map after one instruction: allocation stubs give `Object` and
/// `List`, typed pool loads their type, immediate assignments `int`, and a
/// cast its target type.
pub open spec fn type_after(m: Map<u16, Seq<char>>, ir: IRView) -> Map<u16, Seq<char>> {
    match ir {
        IRView::Call { dst: Some(reg), kind: CallKindView::Stub(StubCallKind::AllocateObject), .. } =>
            m.insert(reg.0, "Object"@),
        IRView::Call { dst: Some(reg), kind: CallKindView::Stub(StubCallKind::AllocateArray), .. } =>
            m.insert(reg.0, "List"@),
        IRView::LoadPool { dst, resolved: Some(name), .. } => match pool_text_type(name) {
            Some(t) => m.insert(dst.0, t),
            None => m,
        },
        IRView::Assign(dst, OperandView::Imm(_)) => m.insert(dst.0, "int"@),
        IRView::TypeCheck { src, target_type, is_cast } =>
            if is_cast { m.insert(src.0, target_type.name) } else { m },
        _ => m,
    }
}

/// The type map after the first `k` instructions of a list.
pub open spec fn types_through(m: Map<u16, Seq<char>>, ir: Seq<IRView>, k: int) -> Map<u16, Seq<char>>
    decreases k,
{
    if k <= 0 {
        m
    } else {
        type_after(types_through(m, ir, k - 1), ir[k - 1])
    }
}

/// The type map after the instructions of the first `k` blocks.
pub open spec fn types_over_blocks(bs: Seq<BasicBlock>, k: int) -> Map<u16, Seq<char>>
    decreases k,
{
    if k <= 0 {
        Map::empty()
    } else {
        let ir = ir_list_view(bs[k - 1].instructions@);
        types_through(types_over_blocks(bs, k - 1), ir, ir.len() as int)
    }
}

/// Records what one instruction reveals.
fn record_type(m: &mut AHashMap<u16, String>, ir: &IR)
    ensures
        type_map_contents(*final(m)) == type_after(type_map_contents(*old(m)), ir@),
{
    match ir {
        IR::Call { dst: Some(reg), kind, .. } => match kind {
            CallKind::Stub(StubCallKind::AllocateObject) => type_map_insert(m, reg.0, owned("Object")),
            CallKind::Stub(StubCallKind::AllocateArray) => type_map_insert(m, reg.0, owned("List")),
            _ => {},
        },
        IR::LoadPool { dst, resolved: Some(name), .. } => {
            if str_starts_with(name.as_str(), "\"") {
                type_map_insert(m, dst.0, owned("String"));
            } else if str_starts_with(name.as_str(), "int:") {
                type_map_insert(m, dst.0, owned("int"));
            } else if str_starts_with(name.as_str(), "double:") {
                type_map_insert(m, dst.0, owned("double"));
            } else if str_starts_with(name.as_str(), "bool:") {
                type_map_insert(m, dst.0, owned("bool"));
            }
        },
        IR::Assign(dst, Operand::Imm(_)) => type_map_insert(m, dst.0, owned("int")),
        IR::TypeCheck { src, target_type, is_cast } => {
            if *is_cast {
                type_map_insert(m, src.0, owned(target_type.name.as_str()));
            }
        },
        _ => {},
    }
}

/// Propagate type information through the CFG: the blocks in id order and
/// their instructions in order, a later fact about a register replacing an
/// earlier one.
pub fn propagate_types(cfg: &CFG) -> (types: AHashMap<u16, String>)
    ensures
        type_map_contents(types) == types_over_blocks(
            sort_blocks(graph_nodes(cfg.graph)),
            graph_nodes(cfg.graph).len() as int,
        ),
{
    let blocks = cfg.blocks();
    let ghost bs = deref_blocks(blocks@);
    let mut m = type_map_new();
    let mut p: usize = 0;
    while p < blocks.len()
        invariant
            bs == deref_blocks(blocks@),
            0 <= p <= blocks@.len(),
            type_map_contents(m) == types_over_blocks(bs, p as int),
        decreases blocks@.len() - p,
    {
        let block = blocks[p];
        let ghost start = type_map_contents(m);
        let ghost irv = ir_list_view(block.instructions@);
        let mut k: usize = 0;
        while k < block.instructions.len()
            invariant
                irv == ir_list_view(block.instructions@),
                0 <= k <= block.instructions@.len(),
                type_map_contents(m) == types_through(start, irv, k as int),
            decreases block.instructions@.len() - k,
        {
            record_type(&mut m, &block.instructions[k]);
            k = k + 1;
        }
        proof {
            assert(bs[p as int] == *block);
        }
        p = p + 1;
    }
    m
}

} // verus!
