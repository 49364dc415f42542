//! Static single assignment: phi functions at iterated dominance frontiers and
//! one version per definition of a register.

use vstd::prelude::*;
use ahash::AHashMap;
use crate::lifter::ir::{BlockId, IR, IRView, Reg, ir_list_view, ir_dest};
use super::cfg::{CFG, BasicBlock, BasicBlockView, block_views, sort_blocks, deref_blocks, copy_ids};
use super::digraph::{graph_nodes, graph_edges, graph_node, graph_set_node};
use super::dominators::{DominatorTree, frontier_of};
use super::reaching::{dest_table, uses_renamed, dest_table_of, rename_uses};
use std::collections::HashSet;

verus! {

/// The register an instruction model writes, if any.
pub open spec fn dest_of(ir: IRView) -> Option<Reg> {
    match ir {
        IRView::Assign(r, _) => Some(r),
        IRView::BinOp { dst, .. } => Some(dst),
        IRView::UnaryOp { dst, .. } => Some(dst),
        IRView::Call { dst, .. } => dst,
        IRView::LoadPool { dst, .. } => Some(dst),
        IRView::LoadField { dst, .. } => Some(dst),
        IRView::Phi { dst, .. } => Some(dst),
        _ => None,
    }
}

/// The instruction with its destination register replaced, for the
/// instructions that `remap_dest_reg` rewrites: assignments, binary and unary
/// operations, calls, pool and field loads, and phis. A call without a
/// destination gains one.
pub open spec fn remap_view(ir: IRView, r: Reg) -> IRView {
    match ir {
        IRView::Assign(_, op) => IRView::Assign(r, op),
        IRView::BinOp { op, lhs, rhs, .. } => IRView::BinOp { dst: r, op, lhs, rhs },
        IRView::UnaryOp { op, src, .. } => IRView::UnaryOp { dst: r, op, src },
        IRView::Call { kind, args, .. } => IRView::Call { dst: Some(r), kind, args },
        IRView::LoadPool { addr, resolved, .. } => IRView::LoadPool { dst: r, addr, resolved },
        IRView::LoadField { base, offset, field_name, .. } => IRView::LoadField { dst: r, base, offset, field_name },
        IRView::Phi { sources, .. } => IRView::Phi { dst: r, sources },
        other => other,
    }
}

/// The destination of an instruction is that of its model.
pub proof fn lemma_dest_of_view(ir: IR)
    ensures
        ir_dest(ir) == dest_of(ir@),
{
}

/// The instruction with its destination register replaced.
pub fn remap_dest_reg(ir: IR, new_reg: Reg) -> (out: IR)
    ensures
        out@ == remap_view(ir@, new_reg),
{
    match ir {
        IR::Assign(_, op) => IR::Assign(new_reg, op),
        IR::BinOp { op, lhs, rhs, .. } => IR::BinOp { dst: new_reg, op, lhs, rhs },
        IR::UnaryOp { op, src, .. } => IR::UnaryOp { dst: new_reg, op, src },
        IR::Call { kind, args, .. } => IR::Call { dst: Some(new_reg), kind, args },
        IR::LoadPool { addr, resolved, .. } => IR::LoadPool { dst: new_reg, addr, resolved },
        IR::LoadField { base, offset, field_name, .. } => IR::LoadField { dst: new_reg, base, offset, field_name },
        IR::Phi { sources, .. } => IR::Phi { dst: new_reg, sources },
        other => other,
    }
}

/// Replacing the destination of an instruction that writes one leaves an
/// instruction that writes the new register.
pub proof fn law_remap_defines_new(ir: IRView, r: Reg)
    ensures
        dest_of(ir) is Some ==> dest_of(remap_view(ir, r)) == Some(r),
        dest_of(ir) is None && !(ir is Call) ==> remap_view(ir, r) == ir,
{
}

// ----- definitions -----

/// What a map from register numbers to defining block ids holds.
pub uninterp spec fn defs_contents(m: AHashMap<u16, Vec<u32>>) -> Map<u16, Seq<u32>>;

/// `AHashMap::new` for definitions: an empty map.
#[verifier::external_body]
fn defs_new() -> (m: AHashMap<u16, Vec<u32>>)
    ensures
        defs_contents(m).is_empty(),
{
    AHashMap::new()
}

/// `AHashMap::insert` for definitions: the register now maps to the list.
#[verifier::external_body]
fn defs_insert(m: &mut AHashMap<u16, Vec<u32>>, k: u16, v: Vec<u32>)
    ensures
        defs_contents(*final(m)) == defs_contents(*old(m)).insert(k, v@),
{
    m.insert(k, v);
}

/// `AHashMap::get` for definitions: a reference to the list of the register, if any.
#[verifier::external_body]
fn defs_get(m: &AHashMap<u16, Vec<u32>>, k: u16) -> (r: Option<&Vec<u32>>)
    ensures
        match r {
            Some(v) => defs_contents(*m).contains_key(k) && v@ == defs_contents(*m)[k],
            None => !defs_contents(*m).contains_key(k),
        },
{
    m.get(&k)
}

/// `AHashMap::keys`, collected: every register of the map once, in the order
/// in which the map is walked. That order depends on the map's random hasher,
/// so nothing is said of it.
#[verifier::external_body]
fn defs_keys(m: &AHashMap<u16, Vec<u32>>) -> (ks: Vec<u16>)
    ensures
        ks@.to_set() == defs_contents(*m).dom(),
        ks@.no_duplicates(),
{
    m.keys().copied().collect()
}

/// The list a definitions map holds for a register, or the empty list.
pub open spec fn defs_of(m: Map<u16, Seq<u32>>, r: u16) -> Seq<u32> {
    if m.contains_key(r) { m[r] } else { Seq::empty() }
}

/// The definitions map after the first `k` instructions of block `id`: each
/// written register records the block.
pub open spec fn defs_through(m: Map<u16, Seq<u32>>, id: u32, ir: Seq<IRView>, k: int) -> Map<u16, Seq<u32>>
    decreases k,
{
    if k <= 0 {
        m
    } else {
        let prev = defs_through(m, id, ir, k - 1);
        match dest_of(ir[k - 1]) {
            Some(r) => prev.insert(r.0, defs_of(prev, r.0).push(id)),
            None => prev,
        }
    }
}

/// The definitions map after the first `k` blocks.
pub open spec fn defs_over_blocks(bs: Seq<BasicBlock>, k: int) -> Map<u16, Seq<u32>>
    decreases k,
{
    if k <= 0 {
        Map::empty()
    } else {
        let ir = ir_list_view(bs[k - 1].instructions@);
        defs_through(defs_over_blocks(bs, k - 1), bs[k - 1].id, ir, ir.len() as int)
    }
}

/// For each register, the ids of the blocks that write it, once per write,
/// the blocks in id order.
fn compute_definitions(cfg: &CFG) -> (defs: AHashMap<u16, Vec<u32>>)
    ensures
        defs_contents(defs) == defs_over_blocks(sort_blocks(graph_nodes(cfg.graph)), graph_nodes(cfg.graph).len() as int),
{
    let blocks = cfg.blocks();
    let ghost bs = deref_blocks(blocks@);
    let mut defs = defs_new();
    let mut p: usize = 0;
    while p < blocks.len()
        invariant
            bs == deref_blocks(blocks@),
            0 <= p <= blocks@.len(),
            defs_contents(defs) == defs_over_blocks(bs, p as int),
        decreases blocks@.len() - p,
    {
        let block = blocks[p];
        let ghost start = defs_contents(defs);
        let ghost irv = ir_list_view(block.instructions@);
        let mut k: usize = 0;
        while k < block.instructions.len()
            invariant
                irv == ir_list_view(block.instructions@),
                0 <= k <= block.instructions@.len(),
                defs_contents(defs) == defs_through(start, block.id, irv, k as int),
            decreases block.instructions@.len() - k,
        {
            let ghost prev = defs_contents(defs);
            match block.instructions[k].dest_reg() {
                Some(reg) => {
                    let mut list: Vec<u32> = match defs_get(&defs, reg.0) {
                        Some(v) => copy_ids(v),
                        None => Vec::new(),
                    };
                    list.push(block.id);
                    proof {
                        assert(list@ == defs_of(prev, reg.0).push(block.id));
                    }
                    defs_insert(&mut defs, reg.0, list);
                },
                None => {},
            }
            proof {
                assert(irv[k as int] == block.instructions@[k as int]@);
            }
            k = k + 1;
        }
        proof {
            assert(bs[p as int] == *block);
        }
        p = p + 1;
    }
    defs
}

} // verus!

verus! {

// ----- renaming -----

/// What a map from register numbers to version counters holds.
pub uninterp spec fn counters_contents(m: AHashMap<u16, u16>) -> Map<u16, u16>;

/// `AHashMap::new` for counters: an empty map.
#[verifier::external_body]
fn counters_new() -> (m: AHashMap<u16, u16>)
    ensures
        counters_contents(m).is_empty(),
{
    AHashMap::new()
}

/// `AHashMap::insert` for counters: the register now maps to the count.
#[verifier::external_body]
fn counters_insert(m: &mut AHashMap<u16, u16>, k: u16, v: u16)
    ensures
        counters_contents(*final(m)) == counters_contents(*old(m)).insert(k, v),
{
    m.insert(k, v);
}

/// `AHashMap::get` for counters, with the count copied out.
#[verifier::external_body]
fn counters_get(m: &AHashMap<u16, u16>, k: u16) -> (r: Option<u16>)
    ensures
        r == (if counters_contents(*m).contains_key(k) { Some(counters_contents(*m)[k]) } else { None }),
{
    m.get(&k).copied()
}

/// The count of a register, 0 where it has none.
pub open spec fn count_of(c: Map<u16, u16>, r: u16) -> u16 {
    if c.contains_key(r) { c[r] } else { 0 }
}

/// Version `n` of register `r`: register `r * 100 + n`, in 16-bit arithmetic
/// that wraps around as an optimized build's does.
pub open spec fn version_of(r: u16, n: u16) -> Reg {
    Reg(vstd::wrapping::u16_specs::wrapping_add(vstd::wrapping::u16_specs::wrapping_mul(r, 100), n))
}

/// One instruction renamed: a written register gets its next version.
pub open spec fn rename_ir(c: Map<u16, u16>, ir: IRView) -> (Map<u16, u16>, IRView) {
    match dest_of(ir) {
        Some(r) => {
            let n = vstd::wrapping::u16_specs::wrapping_add(count_of(c, r.0), 1);
            (c.insert(r.0, n), remap_view(ir, version_of(r.0, n)))
        },
        None => (c, ir),
    }
}

/// The first `k` instructions renamed in order, and the counters after them.
pub open spec fn rename_list(c: Map<u16, u16>, ir: Seq<IRView>, k: int) -> (Map<u16, u16>, Seq<IRView>)
    decreases k,
{
    if k <= 0 {
        (c, Seq::empty())
    } else {
        let (c1, out) = rename_list(c, ir, k - 1);
        let (c2, x) = rename_ir(c1, ir[k - 1]);
        (c2, out.push(x))
    }
}

/// A block with its instructions replaced.
pub open spec fn with_instructions(b: BasicBlockView, ir: Seq<IRView>) -> BasicBlockView {
    BasicBlockView { instructions: ir, ..b }
}

/// The blocks after renaming the blocks with the first `k` ids in turn, and the
/// counters after them.
pub open spec fn rename_blocks(
    nodes: Seq<BasicBlockView>,
    index: Map<u32, usize>,
    ids: Seq<u32>,
    k: int,
) -> (Seq<BasicBlockView>, Map<u16, u16>)
    decreases k,
{
    if k <= 0 {
        (nodes, Map::empty())
    } else {
        let (ns, c1) = rename_blocks(nodes, index, ids, k - 1);
        let id = ids[k - 1];
        if index.contains_key(id) {
            let p = index[id] as int;
            let (c2, out) = rename_list(c1, ns[p].instructions, ns[p].instructions.len() as int);
            (ns.update(p, with_instructions(ns[p], out)), c2)
        } else {
            (ns, c1)
        }
    }
}

/// The ids of a list of blocks.
pub open spec fn ids_of(bs: Seq<BasicBlock>) -> Seq<u32> {
    bs.map_values(|b: BasicBlock| b.id)
}

/// Renames the instructions of one block with the counters.
fn rename_block_instructions(counters: &mut AHashMap<u16, u16>, instrs: &Vec<IR>) -> (out: Vec<IR>)
    ensures
        (counters_contents(*final(counters)), ir_list_view(out@))
            == rename_list(counters_contents(*old(counters)), ir_list_view(instrs@), instrs@.len() as int),
{
    let ghost irv = ir_list_view(instrs@);
    let mut out: Vec<IR> = Vec::new();
    let mut k: usize = 0;
    while k < instrs.len()
        invariant
            irv == ir_list_view(instrs@),
            0 <= k <= instrs@.len(),
            (counters_contents(*counters), ir_list_view(out@))
                == rename_list(counters_contents(*old(counters)), irv, k as int),
        decreases instrs@.len() - k,
    {
        let ir = instrs[k].copy();
        let ghost c1 = counters_contents(*counters);
        let ghost before = ir_list_view(out@);
        proof {
            assert(ir@ == irv[k as int]);
        }
        match ir.dest_reg() {
            Some(reg) => {
                let count = match counters_get(counters, reg.0) {
                    Some(c) => c,
                    None => 0,
                };
                let next = count.wrapping_add(1);
                counters_insert(counters, reg.0, next);
                let new_reg = Reg(reg.0.wrapping_mul(100).wrapping_add(next));
                out.push(remap_dest_reg(ir, new_reg));
            },
            None => {
                out.push(ir);
            },
        }
        proof {
            assert(ir_list_view(out@) =~= before.push(rename_ir(c1, irv[k as int]).1));
        }
        k = k + 1;
    }
    assert(ir_list_view(out@) == rename_list(counters_contents(*old(counters)), irv, instrs@.len() as int).1);
    out
}

/// Gives every definition of a register its own version, visiting the
/// blocks in id order and their instructions in order.
fn rename_variables(cfg: &mut CFG)
    requires
        old(cfg).wf(),
    ensures
        final(cfg).block_list() == rename_blocks(
            old(cfg).block_list(),
            old(cfg).index(),
            ids_of(sort_blocks(graph_nodes(old(cfg).graph))),
            graph_nodes(old(cfg).graph).len() as int,
        ).0,
        graph_edges(final(cfg).graph) == graph_edges(old(cfg).graph),
        final(cfg).index() == old(cfg).index(),
        final(cfg).entry == old(cfg).entry,
        final(cfg).wf(),
{
    let ids: Vec<u32> = {
        let blocks = cfg.blocks();
        let mut v: Vec<u32> = Vec::new();
        let mut i: usize = 0;
        while i < blocks.len()
            invariant
                0 <= i <= blocks@.len(),
                v@ == ids_of(deref_blocks(blocks@)).take(i as int),
            decreases blocks@.len() - i,
        {
            v.push(blocks[i].id);
            assert(v@ =~= ids_of(deref_blocks(blocks@)).take(i + 1));
            i = i + 1;
        }
        assert(v@ =~= ids_of(deref_blocks(blocks@)));
        v
    };
    let ghost nodes0 = cfg.block_list();
    let ghost index0 = cfg.index();
    let mut counters = counters_new();
    let mut k: usize = 0;
    while k < ids.len()
        invariant
            cfg.wf(),
            cfg.index() == index0,
            graph_nodes(cfg.graph).len() == nodes0.len(),
            (cfg.block_list(), counters_contents(counters)) == rename_blocks(nodes0, index0, ids@, k as int),
            graph_edges(cfg.graph) == graph_edges(old(cfg).graph),
            cfg.entry == old(cfg).entry,
            0 <= k <= ids@.len(),
        decreases ids@.len() - k,
    {
        let ghost ns = cfg.block_list();
        match super::cfg::block_index_get(&cfg.block_map, ids[k]) {
            Some(p) => {
                let b = graph_node(&cfg.graph, p);
                let out = rename_block_instructions(&mut counters, &b.instructions);
                let nb = BasicBlock {
                    id: b.id,
                    instructions: out,
                    predecessors: copy_ids(&b.predecessors),
                    successors: copy_ids(&b.successors),
                    start_address: b.start_address,
                    end_address: b.end_address,
                };
                proof {
                    assert(ns[p as int] == b@);
                    assert(nb@ == with_instructions(ns[p as int], ir_list_view(nb.instructions@)));
                }
                let ghost edges_before = cfg.edge_list();
                let ghost len_before = graph_nodes(cfg.graph).len();
                graph_set_node(&mut cfg.graph, p, nb);
                proof {
                    assert(cfg.block_list() =~= ns.update(p as int, nb@));
                    assert(cfg.edge_list() == edges_before);
                    assert(graph_nodes(cfg.graph).len() == len_before);
                }
            },
            None => {},
        }
        k = k + 1;
    }
}

} // verus!

verus! {

broadcast use vstd::std_specs::hash::group_hash_axioms;

// ----- phi functions -----

/// `b` lies in the dominance frontier of `a`.
pub open spec fn in_frontier(df: Map<u32, Seq<u32>>, a: u32, b: u32) -> bool {
    frontier_of(df, a).contains(b)
}

/// Step `i` of a chain moves to a block in the frontier of the previous one.
pub open spec fn frontier_step(df: Map<u32, Seq<u32>>, chain: Seq<u32>, i: int) -> bool {
    in_frontier(df, chain[i], chain[i + 1])
}

/// A chain from a defining block, each next block in the frontier of the last.
pub open spec fn frontier_chain(df: Map<u32, Seq<u32>>, defs: Set<u32>, chain: Seq<u32>) -> bool {
    &&& chain.len() >= 2
    &&& defs.contains(chain[0])
    &&& forall|i: int| 0 <= i < chain.len() - 1 ==> #[trigger] frontier_step(df, chain, i)
}

/// Some frontier chain from a defining block ends at `b`.
pub open spec fn has_chain(df: Map<u32, Seq<u32>>, defs: Set<u32>, b: u32) -> bool {
    exists|chain: Seq<u32>| frontier_chain(df, defs, chain) && chain.last() == b
}

/// `h` is the iterated dominance frontier of the defining blocks `defs`: it
/// holds the frontier of every defining block and of each of its own blocks,
/// and each of its blocks is reached from a defining block along frontiers.
pub open spec fn is_idf(df: Map<u32, Seq<u32>>, defs: Set<u32>, h: Set<u32>) -> bool {
    &&& h.finite()
    &&& forall|x: u32, i: int| (defs.contains(x) || h.contains(x)) && 0 <= i < frontier_of(df, x).len()
        ==> h.contains(#[trigger] frontier_of(df, x)[i])
    &&& forall|b: u32| #[trigger] h.contains(b) ==> has_chain(df, defs, b)
}

/// The phi function of a register at a block: one source per predecessor.
pub open spec fn phi_of(b: BasicBlockView, r: u16) -> IRView {
    IRView::Phi { dst: Reg(r), sources: b.predecessors.map_values(|q: u32| (q, Reg(r))) }
}

/// The blocks of `h` that the index places at position `p`.
pub open spec fn placed_at(h: Set<u32>, index: Map<u32, usize>, p: int) -> Set<u32> {
    h.filter(|fb: u32| index.contains_key(fb) && index[fb] == p)
}

/// The blocks with a phi of register `r` put in front of the block at each
/// position, once for each block of `h` that the index places there.
pub open spec fn add_phis(nodes: Seq<BasicBlockView>, index: Map<u32, usize>, r: u16, h: Set<u32>) -> Seq<BasicBlockView> {
    Seq::new(nodes.len(), |p: int| with_instructions(
        nodes[p],
        Seq::new(placed_at(h, index, p).len(), |i: int| phi_of(nodes[p], r)) + nodes[p].instructions,
    ))
}

/// The blocks after the phis of the first `k` registers of `order`, with
/// `hs[i]` the blocks that get a phi of `order[i]`.
pub open spec fn phis_for(
    nodes: Seq<BasicBlockView>,
    index: Map<u32, usize>,
    order: Seq<u16>,
    hs: Seq<Set<u32>>,
    k: int,
) -> Seq<BasicBlockView>
    decreases k,
{
    if k <= 0 {
        nodes
    } else {
        add_phis(phis_for(nodes, index, order, hs, k - 1), index, order[k - 1], hs[k - 1])
    }
}

} // verus!

verus! {

/// Puts a phi of register `r` in front of the block at position `p`.
fn put_phi(cfg: &mut CFG, p: usize, r: u16)
    requires
        old(cfg).wf(),
        p < graph_nodes(old(cfg).graph).len(),
    ensures
        final(cfg).wf(),
        final(cfg).block_list() == old(cfg).block_list().update(
            p as int,
            with_instructions(old(cfg).block_list()[p as int], seq![phi_of(old(cfg).block_list()[p as int], r)]
                + old(cfg).block_list()[p as int].instructions),
        ),
        graph_edges(final(cfg).graph) == graph_edges(old(cfg).graph),
        final(cfg).index() == old(cfg).index(),
        final(cfg).entry == old(cfg).entry,
{
    let b = graph_node(&cfg.graph, p);
    let mut sources: Vec<(BlockId, Reg)> = Vec::new();
    let mut i: usize = 0;
    while i < b.predecessors.len()
        invariant
            0 <= i <= b.predecessors@.len(),
            sources@ == b.predecessors@.take(i as int).map_values(|q: u32| (q, Reg(r))),
        decreases b.predecessors@.len() - i,
    {
        sources.push((b.predecessors[i], Reg(r)));
        assert(sources@ =~= b.predecessors@.take(i + 1).map_values(|q: u32| (q, Reg(r))));
        i = i + 1;
    }
    assert(b.predecessors@.take(b.predecessors@.len() as int) =~= b.predecessors@);
    let mut instrs: Vec<IR> = Vec::new();
    instrs.push(IR::Phi { dst: Reg(r), sources });
    let ghost first = ir_list_view(instrs@);
    let mut k: usize = 0;
    while k < b.instructions.len()
        invariant
            0 <= k <= b.instructions@.len(),
            instrs@.len() == k + 1,
            ir_list_view(instrs@) == first + ir_list_view(b.instructions@).take(k as int),
        decreases b.instructions@.len() - k,
    {
        let ghost before = ir_list_view(instrs@);
        let c = b.instructions[k].copy();
        instrs.push(c);
        assert(ir_list_view(instrs@) =~= before.push(c@));
        assert(ir_list_view(b.instructions@).take(k + 1) =~= ir_list_view(b.instructions@).take(k as int).push(c@));
        assert(ir_list_view(instrs@) =~= first + ir_list_view(b.instructions@).take(k + 1));
        k = k + 1;
    }
    assert(ir_list_view(b.instructions@).take(b.instructions@.len() as int) =~= ir_list_view(b.instructions@));
    let nb = BasicBlock {
        id: b.id,
        instructions: instrs,
        predecessors: copy_ids(&b.predecessors),
        successors: copy_ids(&b.successors),
        start_address: b.start_address,
        end_address: b.end_address,
    };
    let ghost ns = cfg.block_list();
    let ghost edges_before = cfg.edge_list();
    let ghost len_before = graph_nodes(cfg.graph).len();
    proof {
        assert(ns[p as int] == b@);
        assert(first =~= seq![phi_of(b@, r)]);
    }
    graph_set_node(&mut cfg.graph, p, nb);
    proof {
        assert(cfg.edge_list() == edges_before);
        assert(graph_nodes(cfg.graph).len() == len_before);
        assert(cfg.block_list() =~= ns.update(p as int, nb@));
        assert(nb@ == with_instructions(ns[p as int], seq![phi_of(ns[p as int], r)] + ns[p as int].instructions));
    }
}

/// Adding a block of the frontier set adds a phi at its position alone.
proof fn lemma_add_phis_insert(nodes: Seq<BasicBlockView>, index: Map<u32, usize>, r: u16, h: Set<u32>, fb: u32)
    requires
        h.finite(),
        !h.contains(fb),
    ensures
        index.contains_key(fb) && (index[fb] as int) < nodes.len() ==> add_phis(nodes, index, r, h.insert(fb))
            == add_phis(nodes, index, r, h).update(
                index[fb] as int,
                with_instructions(add_phis(nodes, index, r, h)[index[fb] as int],
                    seq![phi_of(add_phis(nodes, index, r, h)[index[fb] as int], r)]
                    + add_phis(nodes, index, r, h)[index[fb] as int].instructions),
            ),
        !index.contains_key(fb) ==> add_phis(nodes, index, r, h.insert(fb)) == add_phis(nodes, index, r, h),
{
    let a = add_phis(nodes, index, r, h);
    let b = add_phis(nodes, index, r, h.insert(fb));
    assert forall|p: int| 0 <= p < nodes.len() implies
        placed_at(h.insert(fb), index, p) == if index.contains_key(fb) && index[fb] == p {
            placed_at(h, index, p).insert(fb)
        } else {
            placed_at(h, index, p)
        } by {
        assert(placed_at(h.insert(fb), index, p) =~= if index.contains_key(fb) && index[fb] == p {
            placed_at(h, index, p).insert(fb)
        } else {
            placed_at(h, index, p)
        });
    }
    if index.contains_key(fb) && (index[fb] as int) < nodes.len() {
        let q = index[fb] as int;
        assert forall|p: int| 0 <= p < nodes.len() implies #[trigger] b[p] == a.update(q, with_instructions(a[q],
            seq![phi_of(a[q], r)] + a[q].instructions))[p] by {
            if p == q {
                assert(placed_at(h, index, p).finite());
                assert(!placed_at(h, index, p).contains(fb));
                let c = placed_at(h, index, p).len();
                assert(Seq::new(c + 1, |i: int| phi_of(nodes[p], r)) + nodes[p].instructions
                    =~= seq![phi_of(nodes[p], r)] + (Seq::new(c, |i: int| phi_of(nodes[p], r)) + nodes[p].instructions));
            }
        }
        assert(b =~= a.update(q, with_instructions(a[q], seq![phi_of(a[q], r)] + a[q].instructions)));
    }
    if !index.contains_key(fb) {
        assert(b =~= a);
    }
}

} // verus!

verus! {

/// A frontier chain extended by a block in the frontier of its last block.
proof fn lemma_chain_extend(df: Map<u32, Seq<u32>>, defs: Set<u32>, chain: Seq<u32>, fb: u32)
    requires
        frontier_chain(df, defs, chain),
        in_frontier(df, chain.last(), fb),
    ensures
        frontier_chain(df, defs, chain.push(fb)),
        chain.push(fb).last() == fb,
{
    let nc = chain.push(fb);
    assert forall|i: int| 0 <= i < nc.len() - 1 implies #[trigger] frontier_step(df, nc, i) by {
        if i < chain.len() - 1 {
            assert(frontier_step(df, chain, i));
        }
    }
}

/// Puts a phi of register `r` at the iterated dominance frontier of its
/// defining blocks, found by a worklist.
fn insert_phis_for_reg(cfg: &mut CFG, dom_tree: &DominatorTree, r: u16, def_blocks: &Vec<u32>)
    requires
        old(cfg).wf(),
    ensures
        final(cfg).wf(),
        exists|h: Set<u32>| is_idf(dom_tree.frontier_map(), def_blocks@.to_set(), h)
            && final(cfg).block_list() == add_phis(old(cfg).block_list(), old(cfg).index(), r, h),
        graph_edges(final(cfg).graph) == graph_edges(old(cfg).graph),
        final(cfg).index() == old(cfg).index(),
        final(cfg).entry == old(cfg).entry,
{
    let ghost df = dom_tree.frontier_map();
    let ghost defs = def_blocks@.to_set();
    let ghost nodes0 = cfg.block_list();
    let ghost index0 = cfg.index();
    let mut worklist: Vec<u32> = copy_ids(def_blocks);
    let mut has_phi: HashSet<u32> = HashSet::new();
    let mut ever: HashSet<u32> = HashSet::new();
    let mut i: usize = 0;
    while i < def_blocks.len()
        invariant
            0 <= i <= def_blocks@.len(),
            ever@.finite(),
            forall|x: u32| #[trigger] ever@.contains(x) <==> def_blocks@.take(i as int).contains(x),
        decreases def_blocks@.len() - i,
    {
        ever.insert(def_blocks[i]);
        assert(def_blocks@.take(i + 1) =~= def_blocks@.take(i as int).push(def_blocks@[i as int]));
        assert forall|x: u32| #[trigger] ever@.contains(x) <==> def_blocks@.take(i + 1).contains(x) by {
            let t0 = def_blocks@.take(i as int);
            let t1 = def_blocks@.take(i + 1);
            if t0.contains(x) {
                let q = choose|q: int| 0 <= q < t0.len() && t0[q] == x;
                assert(t1[q] == x);
            }
            if t1.contains(x) && x != def_blocks@[i as int] {
                let q = choose|q: int| 0 <= q < t1.len() && t1[q] == x;
                assert(t0[q] == x);
            }
            if x == def_blocks@[i as int] {
                assert(t1[i as int] == x);
            }
        }
        i = i + 1;
    }
    assert(def_blocks@.take(def_blocks@.len() as int) =~= def_blocks@);
    proof {
        assert forall|x: u32| #[trigger] defs.contains(x) <==> ever@.contains(x) by {
            assert(defs.contains(x) == def_blocks@.contains(x));
        }
        assert forall|k: int| 0 <= k < worklist@.len() implies ever@.contains(#[trigger] worklist@[k]) by {
            assert(def_blocks@.contains(worklist@[k]));
        }
    }
    proof {
        assert(cfg.block_list() =~= add_phis(nodes0, index0, r, has_phi@)) by {
            assert forall|p: int| 0 <= p < nodes0.len() implies placed_at(has_phi@, index0, p).len() == 0 by {
                assert(placed_at(has_phi@, index0, p) =~= Set::empty());
            }
            assert forall|p: int| 0 <= p < nodes0.len() implies #[trigger] add_phis(nodes0, index0, r, has_phi@)[p]
                == nodes0[p] by {
                assert(Seq::new(0, |i: int| phi_of(nodes0[p], r)) + nodes0[p].instructions =~= nodes0[p].instructions);
            }
        }
    }
    while worklist.len() > 0
        invariant
            cfg.wf(),
            cfg.index() == index0,
            graph_nodes(cfg.graph).len() == nodes0.len(),
            graph_edges(cfg.graph) == graph_edges(old(cfg).graph),
            cfg.entry == old(cfg).entry,
            df == dom_tree.frontier_map(),
            defs == def_blocks@.to_set(),
            ever@.finite(),
            has_phi@.finite(),
            forall|x: u32| #[trigger] ever@.contains(x) ==> defs.contains(x) || has_phi@.contains(x),
            forall|x: u32| #[trigger] defs.contains(x) ==> ever@.contains(x),
            forall|x: u32| #[trigger] has_phi@.contains(x) ==> ever@.contains(x) && has_chain(df, defs, x),
            forall|k: int| 0 <= k < worklist@.len() ==> ever@.contains(#[trigger] worklist@[k]),
            forall|x: u32, j: int| ever@.contains(x) && !worklist@.contains(x) && 0 <= j < frontier_of(df, x).len()
                ==> has_phi@.contains(#[trigger] frontier_of(df, x)[j]),
            cfg.block_list() == add_phis(nodes0, index0, r, has_phi@),
        decreases 0x1_0000_0000 - ever@.len(), worklist@.len(),
    {
        proof {
            crate::graph::structuring::lemma_u32_set_bound(ever@);
        }
        let ghost old_ever = ever@;
        let ghost old_list = worklist@;
        let ghost old_has = has_phi@;
        let x = worklist.pop().unwrap();
        proof {
            assert(worklist@ =~= old_list.drop_last());
            assert(old_list.last() == x);
        }
        let front = dom_tree.frontier(x);
        let ghost x_chain: Seq<u32> = if defs.contains(x) {
            seq![x]
        } else {
            choose|c: Seq<u32>| frontier_chain(df, defs, c) && c.last() == x
        };
        let mut j: usize = 0;
        while j < front.len()
            invariant
                cfg.wf(),
                cfg.index() == index0,
                graph_nodes(cfg.graph).len() == nodes0.len(),
                graph_edges(cfg.graph) == graph_edges(old(cfg).graph),
                cfg.entry == old(cfg).entry,
                df == dom_tree.frontier_map(),
                defs == def_blocks@.to_set(),
                front@ == frontier_of(df, x),
                ever@.finite(),
                has_phi@.finite(),
                old_ever.subset_of(ever@),
                ever@.contains(x),
                defs.contains(x) ==> x_chain == seq![x],
                !defs.contains(x) ==> frontier_chain(df, defs, x_chain) && x_chain.last() == x,
                forall|y: u32| #[trigger] ever@.contains(y) ==> defs.contains(y) || has_phi@.contains(y),
                forall|y: u32| #[trigger] defs.contains(y) ==> ever@.contains(y),
                forall|y: u32| #[trigger] has_phi@.contains(y) ==> ever@.contains(y) && has_chain(df, defs, y),
                worklist@.len() >= old_list.len() - 1,
                worklist@.take(old_list.len() - 1) == old_list.drop_last(),
                forall|k: int| 0 <= k < worklist@.len() ==> ever@.contains(#[trigger] worklist@[k]),
                forall|k: int| old_list.len() - 1 <= k < worklist@.len() ==> !old_ever.contains(#[trigger] worklist@[k]),
                forall|k: int| 0 <= k < j ==> has_phi@.contains(#[trigger] front@[k]),
                0 <= j <= front@.len(),
                cfg.block_list() == add_phis(nodes0, index0, r, has_phi@),
                old_ever.len() <= ever@.len(),
                old_ever.finite(),
                ever@.len() - old_ever.len() >= worklist@.len() - (old_list.len() - 1),
                old_has.subset_of(has_phi@),
                old_list.len() >= 1,
                old_list.last() == x,
                forall|y: u32, k: int| old_ever.contains(y) && !old_list.contains(y) && 0 <= k < frontier_of(df, y).len()
                    ==> old_has.contains(#[trigger] frontier_of(df, y)[k]),
                forall|y: u32| #[trigger] ever@.contains(y) && !old_ever.contains(y) ==> worklist@.contains(y),
            decreases front@.len() - j,
        {
            let fb = front[j];
            if !has_phi.contains(&fb) {
                proof {
                    lemma_add_phis_insert(nodes0, index0, r, has_phi@, fb);
                    assert(in_frontier(df, x, fb)) by {
                        assert(front@[j as int] == fb);
                    }
                    if defs.contains(x) {
                        assert(frontier_chain(df, defs, seq![x, fb])) by {
                            assert(frontier_step(df, seq![x, fb], 0));
                        }
                        assert(seq![x, fb].last() == fb);
                    } else {
                        lemma_chain_extend(df, defs, x_chain, fb);
                    }
                    assert(has_chain(df, defs, fb));
                }
                has_phi.insert(fb);
                match super::cfg::block_index_get(&cfg.block_map, fb) {
                    Some(p) => {
                        put_phi(cfg, p, r);
                        assert(graph_nodes(cfg.graph).len() == cfg.block_list().len());
                    },
                    None => {},
                }
                if !ever.contains(&fb) {
                    let ghost before_ever = ever@;
                    let ghost before_list = worklist@;
                    ever.insert(fb);
                    worklist.push(fb);
                    proof {
                        assert(ever@.len() == before_ever.len() + 1);
                        assert(worklist@.take(old_list.len() - 1) =~= before_list.take(old_list.len() - 1));
                        assert(worklist@[worklist@.len() - 1] == fb);
                        assert forall|y: u32| #[trigger] ever@.contains(y) && !old_ever.contains(y) implies worklist@.contains(y) by {
                            if y != fb {
                                assert(before_ever.contains(y));
                                let q = choose|q: int| 0 <= q < before_list.len() && before_list[q] == y;
                                assert(worklist@[q] == y);
                            }
                        }
                    }
                }
            }
            j = j + 1;
        }
        proof {
            assert forall|y: u32, k: int| ever@.contains(y) && !worklist@.contains(y)
                && 0 <= k < frontier_of(df, y).len() implies has_phi@.contains(#[trigger] frontier_of(df, y)[k]) by {
                if y == x {
                    assert(front@[k] == frontier_of(df, y)[k]);
                } else if old_ever.contains(y) {
                    if old_list.contains(y) {
                        let q = choose|q: int| 0 <= q < old_list.len() && old_list[q] == y;
                        if q < old_list.len() - 1 {
                            assert(worklist@.take(old_list.len() - 1)[q] == y);
                            assert(worklist@[q] == y);
                        }
                    } else {
                        assert(old_has.contains(frontier_of(df, y)[k]));
                    }
                } else {
                    assert(worklist@.contains(y));
                }
            }
            vstd::set_lib::lemma_len_subset(old_ever, ever@);
            crate::graph::structuring::lemma_u32_set_bound(ever@);
            assert(ever@.len() > old_ever.len() || worklist@.len() < old_list.len());
        }
    }
    proof {
        assert(is_idf(df, defs, has_phi@)) by {
            assert forall|y: u32, k: int| (defs.contains(y) || has_phi@.contains(y)) && 0 <= k < frontier_of(df, y).len()
                implies has_phi@.contains(#[trigger] frontier_of(df, y)[k]) by {
                assert(ever@.contains(y));
                assert(!worklist@.contains(y));
            }
        }
    }
}

} // verus!

verus! {

/// The registers of `order`, each with the blocks that got its phis, are the
/// iterated dominance frontiers of their definitions.
pub open spec fn frontiers_ok(df: Map<u32, Seq<u32>>, defs: Map<u16, Seq<u32>>, order: Seq<u16>, hs: Seq<Set<u32>>) -> bool {
    &&& hs.len() == order.len()
    &&& forall|i: int| 0 <= i < order.len() ==> is_idf(df, defs_of(defs, order[i]).to_set(), #[trigger] hs[i])
}

/// Without definitions there is nothing to put: the empty set is the frontier.
proof fn lemma_idf_empty(df: Map<u32, Seq<u32>>)
    ensures
        is_idf(df, Seq::<u32>::empty().to_set(), Set::empty()),
{
    assert(Seq::<u32>::empty().to_set() =~= Set::empty());
}

/// Putting no phis changes no block.
proof fn lemma_add_no_phis(nodes: Seq<BasicBlockView>, index: Map<u32, usize>, r: u16)
    ensures
        add_phis(nodes, index, r, Set::empty()) == nodes,
{
    assert forall|p: int| 0 <= p < nodes.len() implies #[trigger] add_phis(nodes, index, r, Set::empty())[p] == nodes[p] by {
        assert(placed_at(Set::empty(), index, p) =~= Set::empty());
        assert(Seq::new(0, |i: int| phi_of(nodes[p], r)) + nodes[p].instructions =~= nodes[p].instructions);
    }
    assert(add_phis(nodes, index, r, Set::empty()) =~= nodes);
}

/// Puts the phis of each register of `order` in turn.
fn insert_phi_functions(cfg: &mut CFG, dom_tree: &DominatorTree, defs: &AHashMap<u16, Vec<u32>>, order: &Vec<u16>)
    requires
        old(cfg).wf(),
    ensures
        final(cfg).wf(),
        exists|hs: Seq<Set<u32>>| frontiers_ok(dom_tree.frontier_map(), defs_contents(*defs), order@, hs)
            && final(cfg).block_list() == phis_for(old(cfg).block_list(), old(cfg).index(), order@, hs, order@.len() as int),
        graph_edges(final(cfg).graph) == graph_edges(old(cfg).graph),
        final(cfg).index() == old(cfg).index(),
        final(cfg).entry == old(cfg).entry,
{
    let ghost df = dom_tree.frontier_map();
    let ghost dm = defs_contents(*defs);
    let ghost nodes0 = cfg.block_list();
    let ghost index0 = cfg.index();
    let ghost mut hs: Seq<Set<u32>> = Seq::empty();
    let mut k: usize = 0;
    while k < order.len()
        invariant
            cfg.wf(),
            cfg.index() == index0,
            graph_edges(cfg.graph) == graph_edges(old(cfg).graph),
            cfg.entry == old(cfg).entry,
            df == dom_tree.frontier_map(),
            dm == defs_contents(*defs),
            0 <= k <= order@.len(),
            frontiers_ok(df, dm, order@.take(k as int), hs),
            cfg.block_list() == phis_for(nodes0, index0, order@, hs, k as int),
        decreases order@.len() - k,
    {
        let r = order[k];
        let ghost before = cfg.block_list();
        let ghost h: Set<u32>;
        match defs_get(defs, r) {
            Some(list) => {
                insert_phis_for_reg(cfg, dom_tree, r, list);
                proof {
                    h = choose|h: Set<u32>| is_idf(df, list@.to_set(), h)
                        && cfg.block_list() == add_phis(before, index0, r, h);
                }
            },
            None => {
                proof {
                    h = Set::empty();
                    lemma_idf_empty(df);
                    lemma_add_no_phis(before, index0, r);
                    assert(defs_of(dm, r) =~= Seq::<u32>::empty());
                }
            },
        }
        proof {
            let nhs = hs.push(h);
            assert(order@.take(k + 1) =~= order@.take(k as int).push(r));
            assert forall|i: int| 0 <= i < k + 1 implies is_idf(df, defs_of(dm, order@.take(k + 1)[i]).to_set(), #[trigger] nhs[i]) by {
                if i < k {
                    assert(order@.take(k + 1)[i] == order@.take(k as int)[i]);
                    assert(nhs[i] == hs[i]);
                }
            }
            assert(phis_for(nodes0, index0, order@, nhs, k as int) == phis_for(nodes0, index0, order@, hs, k as int)) by {
                lemma_phis_for_prefix(nodes0, index0, order@, hs, nhs, k as int);
            }
            hs = nhs;
        }
        k = k + 1;
    }
    assert(order@.take(order@.len() as int) =~= order@);
}

/// The phis of the first `k` registers depend only on the first `k` sets.
proof fn lemma_phis_for_prefix(
    nodes: Seq<BasicBlockView>,
    index: Map<u32, usize>,
    order: Seq<u16>,
    a: Seq<Set<u32>>,
    b: Seq<Set<u32>>,
    k: int,
)
    requires
        0 <= k <= a.len(),
        k <= b.len(),
        forall|i: int| 0 <= i < k ==> a[i] == b[i],
    ensures
        phis_for(nodes, index, order, a, k) == phis_for(nodes, index, order, b, k),
    decreases k,
{
    if k > 0 {
        lemma_phis_for_prefix(nodes, index, order, a, b, k - 1);
    }
}

} // verus!

verus! {

/// Two lists with the same ids at each position have the same ids.
proof fn lemma_ids_eq(a: Seq<BasicBlock>, b: Seq<BasicBlock>)
    requires
        a.len() == b.len(),
        forall|i: int| 0 <= i < a.len() ==> a[i].id == b[i].id,
    ensures
        ids_of(a) == ids_of(b),
{
    assert(ids_of(a) =~= ids_of(b));
}

/// Lists with the same ids have the same id at each position.
proof fn lemma_ids_at(a: Seq<BasicBlock>, b: Seq<BasicBlock>)
    requires
        ids_of(a) == ids_of(b),
    ensures
        a.len() == b.len(),
        forall|i: int| 0 <= i < a.len() ==> a[i].id == b[i].id,
{
    assert(a.len() == ids_of(a).len());
    assert(b.len() == ids_of(b).len());
    assert forall|i: int| 0 <= i < a.len() implies a[i].id == b[i].id by {
        assert(ids_of(a)[i] == a[i].id);
        assert(ids_of(b)[i] == b[i].id);
    }
}

/// Sorted insertion places by ids alone.
proof fn lemma_sorted_insert_ids(a: Seq<BasicBlock>, b: Seq<BasicBlock>, x: BasicBlock, y: BasicBlock)
    requires
        ids_of(a) == ids_of(b),
        x.id == y.id,
    ensures
        ids_of(super::cfg::sorted_insert(a, x)) == ids_of(super::cfg::sorted_insert(b, y)),
    decreases a.len(),
{
    lemma_ids_at(a, b);
    if a.len() == 0 {
        assert(ids_of(super::cfg::sorted_insert(a, x)) =~= ids_of(super::cfg::sorted_insert(b, y)));
    } else {
        if a.last().id <= x.id {
            lemma_ids_eq(a.push(x), b.push(y));
        } else {
            lemma_ids_eq(a.drop_last(), b.drop_last());
            lemma_sorted_insert_ids(a.drop_last(), b.drop_last(), x, y);
            let sa = super::cfg::sorted_insert(a.drop_last(), x);
            let sb = super::cfg::sorted_insert(b.drop_last(), y);
            lemma_ids_at(sa, sb);
            lemma_ids_eq(sa.push(a.last()), sb.push(b.last()));
        }
    }
}

/// Sorting by id places by ids alone.
proof fn lemma_sort_ids(a: Seq<BasicBlock>, b: Seq<BasicBlock>)
    requires
        ids_of(a) == ids_of(b),
    ensures
        ids_of(sort_blocks(a)) == ids_of(sort_blocks(b)),
    decreases a.len(),
{
    lemma_ids_at(a, b);
    if a.len() > 0 {
        lemma_ids_eq(a.drop_last(), b.drop_last());
        lemma_sort_ids(a.drop_last(), b.drop_last());
        lemma_sorted_insert_ids(sort_blocks(a.drop_last()), sort_blocks(b.drop_last()), a.last(), b.last());
    }
}

/// Putting phis keeps the ids of the blocks.
proof fn lemma_phis_keep_ids(nodes: Seq<BasicBlockView>, index: Map<u32, usize>, order: Seq<u16>, hs: Seq<Set<u32>>, k: int)
    requires
        0 <= k <= hs.len(),
        k <= order.len(),
    ensures
        phis_for(nodes, index, order, hs, k).len() == nodes.len(),
        forall|p: int| 0 <= p < nodes.len() ==> (#[trigger] phis_for(nodes, index, order, hs, k)[p]).id == nodes[p].id,
    decreases k,
{
    if k > 0 {
        lemma_phis_keep_ids(nodes, index, order, hs, k - 1);
    }
}

/// The definitions of a graph's registers, as `compute_definitions` finds them.
pub open spec fn graph_defs(cfg: &CFG) -> Map<u16, Seq<u32>> {
    defs_over_blocks(sort_blocks(graph_nodes(cfg.graph)), graph_nodes(cfg.graph).len() as int)
}

/// The blocks of a graph in SSA form: after the phis of the registers of
/// `order`, at the frontiers `hs`, every definition renamed (blocks in id
/// order), then every use renamed to the version that reaches it through the
/// immediate dominators `im`.
pub open spec fn ssa_blocks(cfg: &CFG, order: Seq<u16>, hs: Seq<Set<u32>>, im: Map<u32, u32>) -> Seq<BasicBlockView> {
    let phis = phis_for(cfg.block_list(), cfg.index(), order, hs, order.len() as int);
    uses_renamed(
        rename_blocks(phis, cfg.index(), ids_of(sort_blocks(graph_nodes(cfg.graph))), graph_nodes(cfg.graph).len() as int).0,
        dest_table(phis),
        cfg.index(),
        im,
    )
}

/// Puts the phis of the registers of `order`, renames the definitions, and
/// renames the uses to the versions that reach them.
fn ssa_with(cfg: &mut CFG, dom_tree: &DominatorTree, defs: &AHashMap<u16, Vec<u32>>, order: &Vec<u16>)
    requires
        old(cfg).wf(),
    ensures
        final(cfg).wf(),
        exists|hs: Seq<Set<u32>>| frontiers_ok(dom_tree.frontier_map(), defs_contents(*defs), order@, hs)
            && final(cfg).block_list() == ssa_blocks(&*old(cfg), order@, hs, dom_tree.idom_map()),
        graph_edges(final(cfg).graph) == graph_edges(old(cfg).graph),
        final(cfg).index() == old(cfg).index(),
        final(cfg).entry == old(cfg).entry,
{
    let ghost before = *cfg;
    insert_phi_functions(cfg, dom_tree, defs, order);
    let ghost hs = choose|hs: Seq<Set<u32>>| frontiers_ok(dom_tree.frontier_map(), defs_contents(*defs), order@, hs)
        && cfg.block_list() == phis_for(before.block_list(), before.index(), order@, hs, order@.len() as int);
    proof {
        lemma_phis_keep_ids(before.block_list(), before.index(), order@, hs, order@.len() as int);
        let a = graph_nodes(before.graph);
        let b = graph_nodes(cfg.graph);
        assert(cfg.block_list().len() == b.len());
        assert forall|p: int| 0 <= p < a.len() implies a[p].id == b[p].id by {
            assert(cfg.block_list()[p] == b[p]@);
            assert(before.block_list()[p] == a[p]@);
        }
        lemma_ids_eq(b, a);
        lemma_sort_ids(b, a);
    }
    let ghost mid = *cfg;
    let d0 = dest_table_of(cfg);
    rename_variables(cfg);
    rename_uses(cfg, &d0, dom_tree);
    proof {
        assert(mid.index() == before.index());
        assert(graph_nodes(mid.graph).len() == graph_nodes(before.graph).len());
        assert(frontiers_ok(dom_tree.frontier_map(), defs_contents(*defs), order@, hs)
            && cfg.block_list() == ssa_blocks(&before, order@, hs, dom_tree.idom_map()));
    }
}

/// Transform the IR of a graph into SSA form, with the registers' phis put in
/// the given order: each register defined in the graph gets a phi at every
/// block of the iterated dominance frontier of its defining blocks, every
/// definition then gets a version of its own, and every use reads the version
/// that reaches it: the last definition before it in its block, else the one
/// that holds at the end of the nearest immediate dominator defining it (a
/// phi's source, the one at the end of that predecessor).
pub fn ssa_transform_in_order(cfg: &mut CFG, dom_tree: &DominatorTree, order: &Vec<u16>)
    requires
        old(cfg).wf(),
    ensures
        final(cfg).wf(),
        exists|hs: Seq<Set<u32>>| frontiers_ok(dom_tree.frontier_map(), graph_defs(&*old(cfg)), order@, hs)
            && final(cfg).block_list() == ssa_blocks(&*old(cfg), order@, hs, dom_tree.idom_map()),
        graph_edges(final(cfg).graph) == graph_edges(old(cfg).graph),
        final(cfg).index() == old(cfg).index(),
        final(cfg).entry == old(cfg).entry,
{
    let defs = compute_definitions(cfg);
    ssa_with(cfg, dom_tree, &defs, order);
}

/// Transform the IR of a graph into SSA form. The registers' phis are put in
/// the order in which a hash map of the definitions is walked, which depends
/// on its random hasher; any order of the defined registers may result.
pub fn ssa_transform(cfg: &mut CFG, dom_tree: &DominatorTree)
    requires
        old(cfg).wf(),
    ensures
        final(cfg).wf(),
        exists|order: Seq<u16>, hs: Seq<Set<u32>>| order.to_set() == graph_defs(&*old(cfg)).dom()
            && order.no_duplicates()
            && frontiers_ok(dom_tree.frontier_map(), graph_defs(&*old(cfg)), order, hs)
            && final(cfg).block_list() == ssa_blocks(&*old(cfg), order, hs, dom_tree.idom_map()),
        graph_edges(final(cfg).graph) == graph_edges(old(cfg).graph),
        final(cfg).index() == old(cfg).index(),
        final(cfg).entry == old(cfg).entry,
{
    let defs = compute_definitions(cfg);
    let order = defs_keys(&defs);
    ssa_with(cfg, dom_tree, &defs, &order);
}

} // verus!
