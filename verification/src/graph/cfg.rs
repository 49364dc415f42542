//! Control-flow graph construction from a list of IR instructions.

use vstd::prelude::*;
use std::collections::BTreeSet;
use ahash::AHashMap;
use crate::lifter::ir::{BlockId, IR, IRView, ir_list_view, copy_ir_range};
use crate::text::decimal_seq;
use super::order::{sorted_keys, strictly_increasing};
use super::digraph::{
    CfgGraph, graph_nodes, graph_edges, graph_new, graph_add_node, graph_add_edge,
};

verus! {

broadcast use vstd::std_specs::btree::group_btree_axioms;

/// Edge type in the CFG.
#[derive(Debug, Clone, Copy, PartialEq, Eq, Structural)]
pub enum EdgeKind {
    Unconditional,
    TrueEdge,
    FalseEdge,
    ExceptionEdge,
}

/// A basic block in the control flow graph.
#[derive(Debug, Clone)]
pub struct BasicBlock {
    pub id: BlockId,
    pub instructions: Vec<IR>,
    pub predecessors: Vec<BlockId>,
    pub successors: Vec<BlockId>,
    pub start_address: u64,
    pub end_address: u64,
}

/// The model of a basic block: its lists as sequences.
pub struct BasicBlockView {
    pub id: BlockId,
    pub instructions: Seq<IRView>,
    pub predecessors: Seq<BlockId>,
    pub successors: Seq<BlockId>,
    pub start_address: u64,
    pub end_address: u64,
}

impl View for BasicBlock {
    type V = BasicBlockView;

    open spec fn view(&self) -> BasicBlockView {
        BasicBlockView {
            id: self.id,
            instructions: ir_list_view(self.instructions@),
            predecessors: self.predecessors@,
            successors: self.successors@,
            start_address: self.start_address,
            end_address: self.end_address,
        }
    }
}

/// The models of a list of blocks.
pub open spec fn block_views(bs: Seq<BasicBlock>) -> Seq<BasicBlockView> {
    bs.map_values(|b: BasicBlock| b@)
}

/// What a map from block ids to node positions holds.
pub uninterp spec fn block_index_contents(m: AHashMap<u32, usize>) -> Map<u32, usize>;

/// `AHashMap::new` for block indices: an empty map.
#[verifier::external_body]
fn block_index_new() -> (m: AHashMap<u32, usize>)
    ensures
        block_index_contents(m).is_empty(),
{
    AHashMap::new()
}

/// `AHashMap::insert` for block indices: the id now maps to the position.
#[verifier::external_body]
fn block_index_insert(m: &mut AHashMap<u32, usize>, k: u32, v: usize)
    ensures
        block_index_contents(*final(m)) == block_index_contents(*old(m)).insert(k, v),
{
    m.insert(k, v);
}

/// `AHashMap::get` for block indices, with the position copied out.
#[verifier::external_body]
pub(crate) fn block_index_get(m: &AHashMap<u32, usize>, k: u32) -> (r: Option<usize>)
    ensures
        match r {
            Some(v) => block_index_contents(*m).contains_key(k) && v == block_index_contents(*m)[k],
            None => !block_index_contents(*m).contains_key(k),
        },
{
    m.get(&k).copied()
}

// ----- leaders -----

/// The leaders that instruction `i` contributes: the targets of a branch or a
/// jump, and the instruction after a branch, jump, return or throw.
pub open spec fn leaders_at(ir: Seq<IRView>, i: int) -> Set<u32> {
    let next: Set<u32> = if i + 1 < ir.len() { set![(i + 1) as u32] } else { Set::empty() };
    match ir[i] {
        IRView::Branch { true_target, false_target, .. } => set![true_target, false_target] + next,
        IRView::Jump(t) => set![t] + next,
        IRView::Return(_) => next,
        IRView::Throw(_) => next,
        _ => Set::empty(),
    }
}

/// The leaders found among the first `k` instructions, with 0 always among them.
pub open spec fn leaders_upto(ir: Seq<IRView>, k: int) -> Set<u32>
    decreases k,
{
    if k <= 0 {
        set![0u32]
    } else {
        leaders_upto(ir, k - 1) + leaders_at(ir, k - 1)
    }
}

/// The block leaders of an instruction list.
#[verifier::opaque]
pub open spec fn leaders(ir: Seq<IRView>) -> Set<u32> {
    leaders_upto(ir, ir.len() as int)
}

/// Where the block that `l` leads ends: the smallest leader above `l`, or the
/// length of the list where there is none.
#[verifier::opaque]
pub open spec fn block_end(ls: Set<u32>, l: u32, n: int) -> int {
    if exists|x: u32| ls.contains(x) && x > l {
        (choose|x: u32| ls.contains(x) && x > l && forall|y: u32| ls.contains(y) && y > l ==> x <= y) as int
    } else {
        n
    }
}

/// The smaller of two integers.
pub open spec fn min_int(a: int, b: int) -> int {
    if a <= b { a } else { b }
}

/// Block `b` is the block that its id leads in `ir`.
#[verifier::opaque]
pub open spec fn block_laid_out(ir: Seq<IRView>, b: BasicBlockView) -> bool {
    let n = ir.len() as int;
    &&& leaders(ir).contains(b.id)
    &&& b.id < n
    &&& b.start_address == b.id
    &&& b.end_address == block_end(leaders(ir), b.id, n)
    &&& b.instructions == ir.subrange(b.id as int, min_int(b.end_address as int, n))
}

/// The blocks are those of the leaders below the length, in increasing order.
pub open spec fn layout_ok(ir: Seq<IRView>, bs: Seq<BasicBlockView>) -> bool {
    &&& forall|p: int, q: int| 0 <= p < q < bs.len() ==> bs[p].id < bs[q].id
    &&& forall|p: int| 0 <= p < bs.len() ==> block_laid_out(ir, #[trigger] bs[p])
    &&& forall|l: u32| leaders(ir).contains(l) && l < ir.len() ==>
            exists|p: int| 0 <= p < bs.len() && (#[trigger] bs[p]).id == l
}

/// Collects the leaders of an instruction list.
fn collect_leaders(ir: &[IR]) -> (s: BTreeSet<u32>)
    requires
        ir@.len() < u32::MAX,
    ensures
        s@ == leaders(ir_list_view(ir@)),
{
    let ghost irv = ir_list_view(ir@);
    let n = ir.len();
    let mut s: BTreeSet<u32> = BTreeSet::new();
    s.insert(0u32);
    assert(s@ =~= leaders_upto(irv, 0));
    let mut i: usize = 0;
    while i < n
        invariant
            n == ir@.len() < u32::MAX,
            irv == ir_list_view(ir@),
            0 <= i <= n,
            s@ == leaders_upto(irv, i as int),
        decreases n - i,
    {
        let ghost before = s@;
        match &ir[i] {
            IR::Branch { true_target, false_target, .. } => {
                s.insert(*true_target);
                s.insert(*false_target);
                if i + 1 < n {
                    s.insert((i + 1) as u32);
                }
            },
            IR::Jump(target) => {
                s.insert(*target);
                if i + 1 < n {
                    s.insert((i + 1) as u32);
                }
            },
            IR::Return(_) | IR::Throw(_) => {
                if i + 1 < n {
                    s.insert((i + 1) as u32);
                }
            },
            _ => {},
        }
        assert(s@ =~= before + leaders_at(irv, i as int));
        i = i + 1;
    }
    proof {
        reveal(leaders);
    }
    s
}

/// In a strictly increasing list, the element after position `p` is the
/// smallest element above it, and the last element has none above it.
proof fn lemma_block_end(lv: Seq<u32>, p: int, n: int)
    requires
        strictly_increasing(lv),
        0 <= p < lv.len(),
    ensures
        block_end(lv.to_set(), lv[p], n) == if p + 1 < lv.len() { lv[p + 1] as int } else { n },
{
    reveal(block_end);
    let ls = lv.to_set();
    let l = lv[p];
    if p + 1 < lv.len() {
        let w = lv[p + 1];
        assert(lv.contains(w));
        assert(ls.contains(w));
        assert forall|y: u32| ls.contains(y) && y > l implies w <= y by {
            assert(lv.contains(y));
            let q = choose|q: int| 0 <= q < lv.len() && lv[q] == y;
            if q <= p {
                if q < p {
                    assert(lv[q] < lv[p]);
                }
            } else if q > p + 1 {
                assert(lv[p + 1] < lv[q]);
            }
        }
        let x = choose|x: u32| ls.contains(x) && x > l && forall|y: u32| ls.contains(y) && y > l ==> x <= y;
        assert(x <= w);
        assert(ls.contains(x) && x > l);
        assert(w <= x);
    } else {
        assert forall|x: u32| ls.contains(x) implies !(x > l) by {
            assert(lv.contains(x));
            let q = choose|q: int| 0 <= q < lv.len() && lv[q] == x;
            if q < p {
                assert(lv[q] < lv[p]);
            }
        }
    }
}

/// The block that the leader at position `li` leads, with empty edge lists.
#[verifier::rlimit(60)]
fn make_block(ir: &[IR], lv: &Vec<u32>, li: usize) -> (b: BasicBlock)
    requires
        ir@.len() < u32::MAX,
        strictly_increasing(lv@),
        lv@.to_set() == leaders(ir_list_view(ir@)),
        li < lv@.len(),
        lv@[li as int] < ir@.len(),
    ensures
        block_laid_out(ir_list_view(ir@), b@),
        b.id == lv@[li as int],
        b.predecessors@.len() == 0,
        b.successors@.len() == 0,
{
    let n = ir.len();
    let leader = lv[li];
    let end: usize = if li < lv.len() - 1 { lv[li + 1] as usize } else { n };
    let start = leader as usize;
    proof {
        lemma_block_end(lv@, li as int, n as int);
        assert(lv@.contains(leader));
    }
    let stop = if end < n { end } else { n };
    let instrs = copy_ir_range(ir, start, stop);
    let b = BasicBlock {
        id: leader,
        instructions: instrs,
        predecessors: Vec::new(),
        successors: Vec::new(),
        start_address: leader as u64,
        end_address: end as u64,
    };
    proof {
        reveal(block_laid_out);
        let irv = ir_list_view(ir@);
        assert(lv@.to_set().contains(leader));
        assert(b.end_address == block_end(leaders(irv), leader, n as int));
        assert(min_int(end as int, n as int) == stop);
        assert(b@.instructions == irv.subrange(start as int, stop as int));
    }
    b
}

/// The blocks that the leaders below the length lead, with empty edge lists.
fn layout_blocks(ir: &[IR], lv: &Vec<u32>) -> (bs: Vec<BasicBlock>)
    requires
        ir@.len() < u32::MAX,
        strictly_increasing(lv@),
        lv@.to_set() == leaders(ir_list_view(ir@)),
    ensures
        layout_ok(ir_list_view(ir@), block_views(bs@)),
        bs@.len() <= ir@.len(),
        forall|p: int| 0 <= p < bs@.len() ==> (#[trigger] bs@[p]).predecessors@.len() == 0
            && bs@[p].successors@.len() == 0,
{
    let ghost irv = ir_list_view(ir@);
    let ghost ls = lv@.to_set();
    let n = ir.len();
    let mut bs: Vec<BasicBlock> = Vec::new();
    let mut li: usize = 0;
    while li < lv.len()
        invariant
            n == ir@.len() < u32::MAX,
            irv == ir_list_view(ir@),
            ls == lv@.to_set(),
            ls == leaders(irv),
            strictly_increasing(lv@),
            0 <= li <= lv@.len(),
            bs@.len() <= li,
            forall|p: int| 0 <= p < bs@.len() ==> (#[trigger] bs@[p]).id == lv@[p],
            forall|p: int| 0 <= p < bs@.len() ==> (#[trigger] bs@[p]).id < n,
            forall|j: int| 0 <= j < li && lv@[j] < n ==> j < bs@.len(),
            forall|p: int| 0 <= p < bs@.len() ==> block_laid_out(irv, (#[trigger] bs@[p])@),
            forall|p: int| 0 <= p < bs@.len() ==> (#[trigger] bs@[p]).predecessors@.len() == 0
                && bs@[p].successors@.len() == 0,
        decreases lv@.len() - li,
    {
        let leader = lv[li];
        if (leader as usize) < n {
            proof {
                assert forall|j: int| 0 <= j < li implies lv@[j] < n by {
                    assert(lv@[j] < lv@[li as int]);
                }
                if li > 0 {
                    assert(lv@[li - 1] < n);
                    assert(li - 1 < bs@.len());
                }
                assert(bs@.len() == li);
            }
            let block = make_block(ir, lv, li);
            bs.push(block);
        }
        li = li + 1;
    }
    proof {
        let bv = block_views(bs@);
        assert forall|p: int, q: int| 0 <= p < q < bv.len() implies bv[p].id < bv[q].id by {
            assert(bs@[p].id == lv@[p]);
            assert(bs@[q].id == lv@[q]);
        }
        assert forall|p: int| 0 <= p < bv.len() implies block_laid_out(irv, #[trigger] bv[p]) by {
            assert(bv[p] == bs@[p]@);
        }
        assert forall|l: u32| leaders(irv).contains(l) && l < irv.len() implies
            exists|p: int| 0 <= p < bv.len() && (#[trigger] bv[p]).id == l by {
            assert(lv@.contains(l));
            let q = choose|q: int| 0 <= q < lv@.len() && lv@[q] == l;
            assert(q < bs@.len());
            assert(bv[q].id == l);
        }
        if bs@.len() > 0 {
            let last = bs@.len() - 1;
            lemma_increasing_at_least_index(lv@, last);
            assert(bs@[last].id < n);
        }
    }
    bs
}

/// In a strictly increasing list of naturals, each element is at least its position.
proof fn lemma_increasing_at_least_index(lv: Seq<u32>, p: int)
    requires
        strictly_increasing(lv),
        0 <= p < lv.len(),
    ensures
        lv[p] >= p,
    decreases p,
{
    if p > 0 {
        lemma_increasing_at_least_index(lv, p - 1);
    }
}

} // verus!

verus! {

// ----- edges -----

/// An edge, as positions of its source and target blocks and its kind.
pub type Edge = (usize, usize, EdgeKind);

/// The edge from the block at position `p` to the block with id `t`, where a
/// block has that id.
pub open spec fn edge_to(m: Map<u32, usize>, p: int, t: u32, k: EdgeKind) -> Seq<Edge> {
    if m.contains_key(t) {
        seq![(p as usize, m[t], k)]
    } else {
        Seq::empty()
    }
}

/// The edges that leave block `b` at position `p`, by its last instruction: a
/// branch to both targets, a jump to its target, a return or throw nowhere, and
/// anything else to the block that starts where this one ends.
pub open spec fn block_out_edges(b: BasicBlockView, p: int, m: Map<u32, usize>) -> Seq<Edge> {
    if b.instructions.len() == 0 {
        Seq::empty()
    } else {
        match b.instructions.last() {
            IRView::Branch { true_target, false_target, .. } =>
                edge_to(m, p, true_target, EdgeKind::TrueEdge) + edge_to(m, p, false_target, EdgeKind::FalseEdge),
            IRView::Jump(t) => edge_to(m, p, t, EdgeKind::Unconditional),
            IRView::Return(_) => Seq::empty(),
            IRView::Throw(_) => Seq::empty(),
            _ => edge_to(m, p, b.end_address as u32, EdgeKind::Unconditional),
        }
    }
}

/// The edges that leave the first `k` blocks, block by block.
pub open spec fn edges_upto(bs: Seq<BasicBlockView>, m: Map<u32, usize>, k: int) -> Seq<Edge>
    decreases k,
{
    if k <= 0 {
        Seq::empty()
    } else {
        edges_upto(bs, m, k - 1) + block_out_edges(bs[k - 1], k - 1, m)
    }
}

/// The ids of the targets of the first `k` edges that leave position `p`, in edge order.
pub open spec fn successors_upto(es: Seq<Edge>, ids: Seq<u32>, p: int, k: int) -> Seq<u32>
    decreases k,
{
    if k <= 0 {
        Seq::empty()
    } else {
        let prev = successors_upto(es, ids, p, k - 1);
        if es[k - 1].0 == p {
            prev.push(ids[es[k - 1].1 as int])
        } else {
            prev
        }
    }
}

/// The ids of the sources of the first `k` edges that enter position `p`, in edge order.
pub open spec fn predecessors_upto(es: Seq<Edge>, ids: Seq<u32>, p: int, k: int) -> Seq<u32>
    decreases k,
{
    if k <= 0 {
        Seq::empty()
    } else {
        let prev = predecessors_upto(es, ids, p, k - 1);
        if es[k - 1].1 == p {
            prev.push(ids[es[k - 1].0 as int])
        } else {
            prev
        }
    }
}

/// The ids of a list of blocks.
pub open spec fn block_ids(bs: Seq<BasicBlockView>) -> Seq<u32> {
    bs.map_values(|b: BasicBlockView| b.id)
}

/// Two blocks agree on everything but their edge lists.
pub open spec fn same_shape(a: BasicBlockView, b: BasicBlockView) -> bool {
    &&& a.id == b.id
    &&& a.instructions == b.instructions
    &&& a.start_address == b.start_address
    &&& a.end_address == b.end_address
}

/// Every position that the map gives is a block position.
pub open spec fn index_in_range(m: Map<u32, usize>, len: int) -> bool {
    forall|id: u32| m.contains_key(id) ==> (m[id] as int) < len
}

/// The edges of the first `k` blocks have their endpoints among the blocks.
proof fn lemma_edges_in_range(bs: Seq<BasicBlockView>, m: Map<u32, usize>, k: int)
    requires
        index_in_range(m, bs.len() as int),
        0 <= k <= bs.len(),
    ensures
        forall|e: int| 0 <= e < edges_upto(bs, m, k).len() ==>
            (#[trigger] edges_upto(bs, m, k)[e]).0 < bs.len() && edges_upto(bs, m, k)[e].1 < bs.len(),
        edges_upto(bs, m, k).len() <= 2 * k,
    decreases k,
{
    if k > 0 {
        lemma_edges_in_range(bs, m, k - 1);
    }
}

/// Edges depend only on the shape of the blocks.
proof fn lemma_edges_shape(a: Seq<BasicBlockView>, b: Seq<BasicBlockView>, m: Map<u32, usize>, k: int)
    requires
        a.len() == b.len(),
        0 <= k <= a.len(),
        forall|p: int| 0 <= p < a.len() ==> same_shape(#[trigger] a[p], b[p]),
    ensures
        edges_upto(a, m, k) == edges_upto(b, m, k),
    decreases k,
{
    if k > 0 {
        lemma_edges_shape(a, b, m, k - 1);
        assert(same_shape(a[k - 1], b[k - 1]));
    }
}

/// Layout depends only on the shape of the blocks.
proof fn lemma_layout_shape(ir: Seq<IRView>, a: Seq<BasicBlockView>, b: Seq<BasicBlockView>)
    requires
        a.len() == b.len(),
        forall|p: int| 0 <= p < a.len() ==> same_shape(#[trigger] a[p], b[p]),
        layout_ok(ir, a),
    ensures
        layout_ok(ir, b),
{
    reveal(block_laid_out);
    assert forall|p: int, q: int| 0 <= p < q < b.len() implies b[p].id < b[q].id by {
        assert(same_shape(a[p], b[p]));
        assert(same_shape(a[q], b[q]));
    }
    assert forall|p: int| 0 <= p < b.len() implies block_laid_out(ir, #[trigger] b[p]) by {
        assert(same_shape(a[p], b[p]));
        assert(block_laid_out(ir, a[p]));
    }
    assert forall|l: u32| leaders(ir).contains(l) && l < ir.len() implies
        exists|p: int| 0 <= p < b.len() && (#[trigger] b[p]).id == l by {
        let p = choose|p: int| 0 <= p < a.len() && (#[trigger] a[p]).id == l;
        assert(same_shape(a[p], b[p]));
    }
}

/// The edges that leave each block, in block order.
fn block_edges(bs: &Vec<BasicBlock>, map: &AHashMap<u32, usize>) -> (es: Vec<Edge>)
    requires
        index_in_range(block_index_contents(*map), bs@.len() as int),
    ensures
        es@ == edges_upto(block_views(bs@), block_index_contents(*map), bs@.len() as int),
{
    let ghost bv = block_views(bs@);
    let ghost m = block_index_contents(*map);
    let mut es: Vec<Edge> = Vec::new();
    let mut p: usize = 0;
    while p < bs.len()
        invariant
            bv == block_views(bs@),
            m == block_index_contents(*map),
            0 <= p <= bs@.len(),
            es@ == edges_upto(bv, m, p as int),
        decreases bs@.len() - p,
    {
        let ghost before = es@;
        let block = &bs[p];
        let k = block.instructions.len();
        if k > 0 {
            match &block.instructions[k - 1] {
                IR::Branch { true_target, false_target, .. } => {
                    if let Some(t) = block_index_get(map, *true_target) {
                        es.push((p, t, EdgeKind::TrueEdge));
                    }
                    if let Some(f) = block_index_get(map, *false_target) {
                        es.push((p, f, EdgeKind::FalseEdge));
                    }
                },
                IR::Jump(target) => {
                    if let Some(t) = block_index_get(map, *target) {
                        es.push((p, t, EdgeKind::Unconditional));
                    }
                },
                IR::Return(_) | IR::Throw(_) => {},
                _ => {
                    let next_id = block.end_address as BlockId;
                    if let Some(t) = block_index_get(map, next_id) {
                        es.push((p, t, EdgeKind::Unconditional));
                    }
                },
            }
        }
        proof {
            assert(bv[p as int] == bs@[p as int]@);
            assert(bv[p as int].instructions.len() == k);
            if k > 0 {
                assert(bv[p as int].instructions.last() == bs@[p as int].instructions@[k - 1]@);
            }
            assert(es@ =~= before + block_out_edges(bv[p as int], p as int, m));
        }
        p = p + 1;
    }
    es
}

/// A copy of a list of block ids.
pub(crate) fn copy_ids(v: &Vec<u32>) -> (r: Vec<u32>)
    ensures
        r@ == v@,
{
    let mut r: Vec<u32> = Vec::new();
    let mut i: usize = 0;
    while i < v.len()
        invariant
            0 <= i <= v@.len(),
            r@ == v@.take(i as int),
        decreases v@.len() - i,
    {
        r.push(v[i]);
        assert(r@ =~= v@.take(i + 1));
        i = i + 1;
    }
    assert(r@ =~= v@);
    r
}

/// The successor and the predecessor lists of every block position.
fn edge_lists(n: usize, ids: &Vec<u32>, es: &Vec<Edge>) -> (lists: (Vec<Vec<u32>>, Vec<Vec<u32>>))
    requires
        ids@.len() == n,
        forall|e: int| 0 <= e < es@.len() ==> (#[trigger] es@[e]).0 < n && es@[e].1 < n,
    ensures
        lists.0@.len() == n,
        lists.1@.len() == n,
        forall|p: int| 0 <= p < n ==> (#[trigger] lists.0@[p])@ == successors_upto(es@, ids@, p, es@.len() as int),
        forall|p: int| 0 <= p < n ==> (#[trigger] lists.1@[p])@ == predecessors_upto(es@, ids@, p, es@.len() as int),
{
    let mut succs: Vec<Vec<u32>> = Vec::new();
    let mut preds: Vec<Vec<u32>> = Vec::new();
    let mut q: usize = 0;
    while q < n
        invariant
            0 <= q <= n,
            succs@.len() == q,
            preds@.len() == q,
            forall|p: int| 0 <= p < q ==> (#[trigger] succs@[p])@.len() == 0,
            forall|p: int| 0 <= p < q ==> (#[trigger] preds@[p])@.len() == 0,
        decreases n - q,
    {
        succs.push(Vec::new());
        preds.push(Vec::new());
        q = q + 1;
    }
    proof {
        assert forall|p: int| 0 <= p < n implies (#[trigger] succs@[p])@ == successors_upto(es@, ids@, p, 0) by {
            assert(succs@[p]@ =~= Seq::<u32>::empty());
        }
        assert forall|p: int| 0 <= p < n implies (#[trigger] preds@[p])@ == predecessors_upto(es@, ids@, p, 0) by {
            assert(preds@[p]@ =~= Seq::<u32>::empty());
        }
    }
    let mut e: usize = 0;
    while e < es.len()
        invariant
            ids@.len() == n,
            forall|x: int| 0 <= x < es@.len() ==> (#[trigger] es@[x]).0 < n && es@[x].1 < n,
            0 <= e <= es@.len(),
            succs@.len() == n,
            preds@.len() == n,
            forall|p: int| 0 <= p < n ==> (#[trigger] succs@[p])@ == successors_upto(es@, ids@, p, e as int),
            forall|p: int| 0 <= p < n ==> (#[trigger] preds@[p])@ == predecessors_upto(es@, ids@, p, e as int),
        decreases es@.len() - e,
    {
        let (a, b, _) = es[e];
        let mut s = copy_ids(&succs[a]);
        s.push(ids[b]);
        succs.set(a, s);
        let mut d = copy_ids(&preds[b]);
        d.push(ids[a]);
        preds.set(b, d);
        e = e + 1;
    }
    (succs, preds)
}

} // verus!

verus! {

// ----- the graph -----

/// Control Flow Graph: the blocks as nodes in address order, `entry` the
/// position of the entry block, and `block_map` the position of each block id.
pub struct CFG {
    pub graph: CfgGraph,
    pub entry: usize,
    pub block_map: AHashMap<BlockId, usize>,
}

/// The block that stands in for the entry of an empty instruction list.
pub open spec fn empty_block_view() -> BasicBlockView {
    BasicBlockView {
        id: 0,
        instructions: Seq::empty(),
        predecessors: Seq::empty(),
        successors: Seq::empty(),
        start_address: 0,
        end_address: 0,
    }
}

/// The map gives each block id its position.
pub open spec fn indexes_blocks(m: Map<u32, usize>, bs: Seq<BasicBlockView>) -> bool {
    &&& forall|id: u32| m.contains_key(id) <==> exists|p: int| 0 <= p < bs.len() && (#[trigger] bs[p]).id == id
    &&& forall|p: int| 0 <= p < bs.len() ==> m[(#[trigger] bs[p]).id] == p
}

impl CFG {
    /// The models of the blocks, in node order.
    pub open spec fn block_list(&self) -> Seq<BasicBlockView> {
        block_views(graph_nodes(self.graph))
    }

    /// The edges, in edge order.
    pub open spec fn edge_list(&self) -> Seq<Edge> {
        graph_edges(self.graph)
    }

    /// The position of each block id.
    pub open spec fn index(&self) -> Map<u32, usize> {
        block_index_contents(self.block_map)
    }

    /// Every block id in the index has a node, and every edge joins two nodes.
    pub open spec fn wf(&self) -> bool {
        &&& index_in_range(self.index(), graph_nodes(self.graph).len() as int)
        &&& forall|e: int| 0 <= e < self.edge_list().len() ==>
            (#[trigger] self.edge_list()[e]).0 < graph_nodes(self.graph).len()
            && self.edge_list()[e].1 < graph_nodes(self.graph).len()
    }

    /// The graph is the control-flow graph of `ir`: its blocks are laid out by
    /// the leaders, its edges follow the last instruction of each block, and
    /// each block lists its successors and predecessors in edge order.
    pub open spec fn built_from(&self, ir: Seq<IRView>) -> bool {
        let bs = self.block_list();
        let es = self.edge_list();
        let m = self.index();
        &&& self.entry == 0
        &&& ir.len() == 0 ==> bs == seq![empty_block_view()] && m.is_empty()
        &&& ir.len() > 0 ==> layout_ok(ir, bs) && indexes_blocks(m, bs)
        &&& es == edges_upto(bs, m, bs.len() as int)
        &&& forall|p: int| 0 <= p < bs.len() ==>
            (#[trigger] bs[p]).successors == successors_upto(es, block_ids(bs), p, es.len() as int)
            && bs[p].predecessors == predecessors_upto(es, block_ids(bs), p, es.len() as int)
    }
}

/// The instruction 0 always leads a block.
proof fn lemma_zero_leads(ir: Seq<IRView>, k: int)
    requires
        k >= 0,
    ensures
        leaders_upto(ir, k).contains(0),
    decreases k,
{
    if k > 0 {
        lemma_zero_leads(ir, k - 1);
    }
}

/// A map from each block id to its position.
fn index_blocks(bs: &Vec<BasicBlock>) -> (m: AHashMap<u32, usize>)
    requires
        forall|p: int, q: int| 0 <= p < q < bs@.len() ==> bs@[p].id < bs@[q].id,
    ensures
        indexes_blocks(block_index_contents(m), block_views(bs@)),
        index_in_range(block_index_contents(m), bs@.len() as int),
{
    let ghost bv = block_views(bs@);
    let mut m = block_index_new();
    let mut p: usize = 0;
    while p < bs.len()
        invariant
            bv == block_views(bs@),
            forall|a: int, b: int| 0 <= a < b < bs@.len() ==> bs@[a].id < bs@[b].id,
            0 <= p <= bs@.len(),
            forall|id: u32| block_index_contents(m).contains_key(id) <==>
                exists|q: int| 0 <= q < p && (#[trigger] bv[q]).id == id,
            forall|q: int| 0 <= q < p ==> block_index_contents(m)[(#[trigger] bv[q]).id] == q,
            index_in_range(block_index_contents(m), bs@.len() as int),
        decreases bs@.len() - p,
    {
        let ghost before = block_index_contents(m);
        block_index_insert(&mut m, bs[p].id, p);
        proof {
            let after = block_index_contents(m);
            assert(bv[p as int].id == bs@[p as int].id);
            assert forall|q: int| 0 <= q < p + 1 implies after[(#[trigger] bv[q]).id] == q by {
                if q < p {
                    assert(bv[q].id == bs@[q].id);
                    assert(bv[q].id != bv[p as int].id);
                }
            }
            assert forall|id: u32| after.contains_key(id) implies
                exists|q: int| 0 <= q < p + 1 && (#[trigger] bv[q]).id == id by {
                if id != bv[p as int].id {
                    assert(before.contains_key(id));
                }
            }
            assert forall|id: u32| (exists|q: int| 0 <= q < p + 1 && (#[trigger] bv[q]).id == id)
                implies after.contains_key(id) by {
                let q = choose|q: int| 0 <= q < p + 1 && (#[trigger] bv[q]).id == id;
                if q < p {
                    assert(before.contains_key(id));
                }
            }
        }
        p = p + 1;
    }
    m
}

impl CFG {
    /// Build a CFG from a list of IR instructions. The graph's 32-bit indices
    /// bound the length of the list.
    pub fn build(ir_instructions: &[IR]) -> (cfg: Self)
        requires
            ir_instructions@.len() <= 0x7fff_fffe,
        ensures
            cfg.built_from(ir_list_view(ir_instructions@)),
            cfg.wf(),
    {
        let ghost irv = ir_list_view(ir_instructions@);
        let leader_set = collect_leaders(ir_instructions);
        let lv = sorted_keys(&leader_set);
        let blocks = layout_blocks(ir_instructions, &lv);
        let ghost bv = block_views(blocks@);
        proof {
            assert forall|p: int, q: int| 0 <= p < q < blocks@.len() implies blocks@[p].id < blocks@[q].id by {
                assert(bv[p].id == blocks@[p].id && bv[q].id == blocks@[q].id);
            }
        }
        let block_map = index_blocks(&blocks);
        let ghost m = block_index_contents(block_map);
        let es = block_edges(&blocks, &block_map);
        proof {
            lemma_edges_in_range(bv, m, bv.len() as int);
        }
        let nb = blocks.len();
        let mut ids: Vec<u32> = Vec::new();
        let mut p: usize = 0;
        while p < nb
            invariant
                nb == blocks@.len(),
                bv == block_views(blocks@),
                0 <= p <= nb,
                ids@ == block_ids(bv).take(p as int),
            decreases nb - p,
        {
            ids.push(blocks[p].id);
            assert(ids@ =~= block_ids(bv).take(p + 1));
            p = p + 1;
        }
        assert(ids@ =~= block_ids(bv));
        let (succs, preds) = edge_lists(nb, &ids, &es);
        let mut graph = graph_new();
        let mut p: usize = 0;
        while p < nb
            invariant
                nb == blocks@.len(),
                nb <= 0x7fff_fffe,
                bv == block_views(blocks@),
                succs@.len() == nb,
                preds@.len() == nb,
                0 <= p <= nb,
                graph_nodes(graph).len() == p,
                graph_edges(graph).len() == 0,
                forall|q: int| 0 <= q < p ==> same_shape((#[trigger] graph_nodes(graph)[q])@, bv[q])
                    && graph_nodes(graph)[q]@.successors == succs@[q]@
                    && graph_nodes(graph)[q]@.predecessors == preds@[q]@,
            decreases nb - p,
        {
            let b = &blocks[p];
            let node = BasicBlock {
                id: b.id,
                instructions: crate::lifter::ir::copy_ir_list(&b.instructions),
                predecessors: copy_ids(&preds[p]),
                successors: copy_ids(&succs[p]),
                start_address: b.start_address,
                end_address: b.end_address,
            };
            proof {
                assert(bv[p as int] == blocks@[p as int]@);
            }
            graph_add_node(&mut graph, node);
            p = p + 1;
        }
        let ghost nodes_after = graph_nodes(graph);
        let mut e: usize = 0;
        while e < es.len()
            invariant
                graph_nodes(graph) == nodes_after,
                nb == blocks@.len(),
                nb <= 0x7fff_fffe,
                es@.len() <= 2 * nb,
                forall|x: int| 0 <= x < es@.len() ==> (#[trigger] es@[x]).0 < nb && es@[x].1 < nb,
                graph_nodes(graph).len() == nb,
                0 <= e <= es@.len(),
                graph_edges(graph) == es@.take(e as int),
            decreases es@.len() - e,
        {
            let (a, b, k) = es[e];
            graph_add_edge(&mut graph, a, b, k);
            assert(graph_edges(graph) =~= es@.take(e + 1));
            e = e + 1;
        }
        assert(graph_edges(graph) =~= es@);
        let ghost nodes_before = graph_nodes(graph);
        let entry = match block_index_get(&block_map, 0) {
            Some(pos) => pos,
            None => graph_add_node(
                &mut graph,
                BasicBlock {
                    id: 0,
                    instructions: Vec::new(),
                    predecessors: Vec::new(),
                    successors: Vec::new(),
                    start_address: 0,
                    end_address: 0,
                },
            ),
        };
        let cfg = CFG { graph, entry, block_map };
        proof {
            let fb = cfg.block_list();
            if irv.len() > 0 {
                lemma_zero_leads(irv, irv.len() as int);
                reveal(leaders);
                let p0 = choose|p: int| 0 <= p < bv.len() && (#[trigger] bv[p]).id == 0;
                if p0 > 0 {
                    assert(bv[0].id < bv[p0].id);
                }
                assert(m.contains_key(0));
                assert(fb == block_views(nodes_before));
                assert(fb.len() == bv.len());
                assert forall|p: int| 0 <= p < bv.len() implies same_shape(#[trigger] bv[p], fb[p]) by {
                    assert(fb[p] == nodes_after[p]@);
                    assert(same_shape(nodes_after[p]@, bv[p]));
                }
                lemma_layout_shape(irv, bv, fb);
                assert forall|id: u32| m.contains_key(id) <==> exists|p: int| 0 <= p < fb.len() && (#[trigger] fb[p]).id == id by {
                    if m.contains_key(id) {
                        let p = choose|p: int| 0 <= p < bv.len() && (#[trigger] bv[p]).id == id;
                        assert(same_shape(bv[p], fb[p]));
                        assert(fb[p].id == id);
                    }
                    if exists|p: int| 0 <= p < fb.len() && (#[trigger] fb[p]).id == id {
                        let p = choose|p: int| 0 <= p < fb.len() && (#[trigger] fb[p]).id == id;
                        assert(same_shape(bv[p], fb[p]));
                        assert(bv[p].id == id);
                    }
                }
                assert forall|p: int| 0 <= p < fb.len() implies m[(#[trigger] fb[p]).id] == p by {
                    assert(same_shape(bv[p], fb[p]));
                    assert(fb[p].id == bv[p].id);
                }
                lemma_edges_shape(bv, fb, m, bv.len() as int);
                assert(block_ids(fb) =~= block_ids(bv)) by {
                    assert forall|p: int| 0 <= p < fb.len() implies block_ids(fb)[p] == block_ids(bv)[p] by {
                        assert(same_shape(bv[p], fb[p]));
                    }
                }
                assert(cfg.index() == m);
                assert(cfg.edge_list() == es@);
                assert(layout_ok(irv, fb));
                assert(indexes_blocks(m, fb));
                assert(es@ == edges_upto(fb, m, fb.len() as int));
                assert forall|p: int| 0 <= p < fb.len() implies
                    (#[trigger] fb[p]).successors == successors_upto(es@, block_ids(fb), p, es@.len() as int)
                    && fb[p].predecessors == predecessors_upto(es@, block_ids(fb), p, es@.len() as int) by {
                    assert(fb[p] == nodes_after[p]@);
                }
                lemma_edges_in_range(fb, m, fb.len() as int);
            } else {
                assert(bv.len() == 0);
                assert(!m.contains_key(0));
                assert(m =~= Map::empty());
                assert(es@.len() == 0);
                let b0 = graph_nodes(cfg.graph)[0];
                assert(graph_nodes(cfg.graph).len() == 1);
                assert(ir_list_view(b0.instructions@) =~= Seq::empty());
                assert(b0.predecessors@ =~= Seq::empty());
                assert(b0.successors@ =~= Seq::empty());
                assert(fb[0] == b0@);
                assert(fb =~= seq![empty_block_view()]);
                assert(block_out_edges(fb[0], 0, m) =~= Seq::empty());
                assert(edges_upto(fb, m, 1) =~= edges_upto(fb, m, 0) + block_out_edges(fb[0], 0, m));
                assert(cfg.edge_list() =~= edges_upto(fb, m, fb.len() as int));
                assert(successors_upto(es@, block_ids(fb), 0, 0) =~= Seq::empty());
                assert(predecessors_upto(es@, block_ids(fb), 0, 0) =~= Seq::empty());
            }
        }
        cfg
    }
}

} // verus!

verus! {

/// The blocks that a list of references refers to.
pub open spec fn deref_blocks(s: Seq<&BasicBlock>) -> Seq<BasicBlock> {
    s.map_values(|b: &BasicBlock| *b)
}

/// Block ids increase strictly along the list.
pub open spec fn ids_increasing(s: Seq<BasicBlock>) -> bool {
    forall|i: int, j: int| 0 <= i < j < s.len() ==> s[i].id < s[j].id
}

/// `s`, sorted by id, with `b` inserted after every block whose id is not above its own.
pub open spec fn sorted_insert(s: Seq<BasicBlock>, b: BasicBlock) -> Seq<BasicBlock>
    decreases s.len(),
{
    if s.len() == 0 {
        seq![b]
    } else if s.last().id <= b.id {
        s.push(b)
    } else {
        sorted_insert(s.drop_last(), b).push(s.last())
    }
}

/// The blocks sorted by id by a stable insertion sort: blocks with equal ids
/// keep their order.
pub open spec fn sort_blocks(s: Seq<BasicBlock>) -> Seq<BasicBlock>
    decreases s.len(),
{
    if s.len() == 0 {
        Seq::empty()
    } else {
        sorted_insert(sort_blocks(s.drop_last()), s.last())
    }
}

/// Inserting at the first position whose id is above that of `b` is the sorted insertion.
proof fn lemma_sorted_insert_at(s: Seq<BasicBlock>, b: BasicBlock, j: int)
    requires
        forall|x: int, y: int| 0 <= x < y < s.len() ==> s[x].id <= s[y].id,
        0 <= j <= s.len(),
        forall|a: int| 0 <= a < j ==> s[a].id <= b.id,
        j < s.len() ==> s[j].id > b.id,
    ensures
        s.insert(j, b) == sorted_insert(s, b),
    decreases s.len(),
{
    if s.len() == 0 {
        assert(s.insert(j, b) =~= seq![b]);
    } else if s.last().id <= b.id {
        if j < s.len() {
            assert(s[j].id <= s.last().id);
        }
        assert(s.insert(j, b) =~= s.push(b));
    } else {
        let d = s.drop_last();
        lemma_sorted_insert_at(d, b, j);
        assert(s.insert(j, b) =~= d.insert(j, b).push(s.last()));
    }
}

/// The Graphviz line of a node.
pub open spec fn dot_node_line(b: BasicBlockView) -> Seq<char> {
    "  "@ + decimal_seq(b.id as nat) + " [label=\"BB"@ + decimal_seq(b.id as nat) + " ("@
        + decimal_seq(b.instructions.len()) + " instrs)\"];\n"@
}

/// The Graphviz style of an edge kind.
pub open spec fn dot_edge_style(k: EdgeKind) -> Seq<char> {
    match k {
        EdgeKind::TrueEdge => "color=green"@,
        EdgeKind::FalseEdge => "color=red"@,
        EdgeKind::ExceptionEdge => "color=orange, style=dashed"@,
        EdgeKind::Unconditional => "color=black"@,
    }
}

/// The Graphviz line of an edge between blocks with ids `a` and `b`.
pub open spec fn dot_edge_line(a: u32, b: u32, k: EdgeKind) -> Seq<char> {
    "  "@ + decimal_seq(a as nat) + " -> "@ + decimal_seq(b as nat) + " ["@ + dot_edge_style(k) + "];\n"@
}

/// The node lines of the first `k` blocks.
pub open spec fn dot_nodes(bs: Seq<BasicBlockView>, k: int) -> Seq<char>
    decreases k,
{
    if k <= 0 {
        Seq::empty()
    } else {
        dot_nodes(bs, k - 1) + dot_node_line(bs[k - 1])
    }
}

/// The edge lines of the first `k` edges.
pub open spec fn dot_edges(bs: Seq<BasicBlockView>, es: Seq<Edge>, k: int) -> Seq<char>
    decreases k,
{
    if k <= 0 {
        Seq::empty()
    } else {
        dot_edges(bs, es, k - 1) + dot_edge_line(bs[es[k - 1].0 as int].id, bs[es[k - 1].1 as int].id, es[k - 1].2)
    }
}

/// The Graphviz text of a graph.
pub open spec fn dot_text(bs: Seq<BasicBlockView>, es: Seq<Edge>) -> Seq<char> {
    "digraph CFG {\n"@ + "  node [shape=box, fontname=\"monospace\"];\n"@ + dot_nodes(bs, bs.len() as int)
        + dot_edges(bs, es, es.len() as int) + "}\n"@
}

impl CFG {
    /// All basic blocks, sorted by id; blocks with equal ids keep their node order.
    pub fn blocks(&self) -> (r: Vec<&BasicBlock>)
        ensures
            r@.len() == graph_nodes(self.graph).len(),
            forall|i: int, j: int| 0 <= i < j < r@.len() ==> r@[i].id <= r@[j].id,
            deref_blocks(r@).to_multiset() == graph_nodes(self.graph).to_multiset(),
            ids_increasing(graph_nodes(self.graph)) ==> deref_blocks(r@) == graph_nodes(self.graph),
            deref_blocks(r@) == sort_blocks(graph_nodes(self.graph)),
    {
        broadcast use vstd::seq_lib::group_to_multiset_ensures;
        let ghost nodes = graph_nodes(self.graph);
        let n = crate::graph::digraph::graph_node_count(&self.graph);
        let mut r: Vec<&BasicBlock> = Vec::new();
        let mut i: usize = 0;
        while i < n
            invariant
                nodes == graph_nodes(self.graph),
                n == nodes.len(),
                0 <= i <= n,
                r@.len() == i,
                forall|a: int, b: int| 0 <= a < b < r@.len() ==> r@[a].id <= r@[b].id,
                deref_blocks(r@).to_multiset() == nodes.take(i as int).to_multiset(),
                ids_increasing(nodes) ==> deref_blocks(r@) == nodes.take(i as int),
                deref_blocks(r@) == sort_blocks(nodes.take(i as int)),
            decreases n - i,
        {
            let node = crate::graph::digraph::graph_node(&self.graph, i);
            let mut j: usize = 0;
            while j < r.len() && r[j].id <= node.id
                invariant
                    0 <= j <= r@.len(),
                    forall|a: int| 0 <= a < j ==> r@[a].id <= node.id,
                decreases r@.len() - j,
            {
                j = j + 1;
            }
            proof {
                if ids_increasing(nodes) {
                    if j < r@.len() {
                        assert(deref_blocks(r@)[j as int] == nodes[j as int]);
                        assert(nodes[j as int].id < nodes[i as int].id);
                    }
                }
            }
            let ghost before = r@;
            r.insert(j, node);
            proof {
                assert(deref_blocks(r@) =~= deref_blocks(before).insert(j as int, *node));
                assert(nodes.take(i + 1) =~= nodes.take(i as int).push(nodes[i as int]));
                vstd::seq_lib::to_multiset_insert(deref_blocks(before), j as int, *node);
                vstd::seq_lib::to_multiset_build(nodes.take(i as int), nodes[i as int]);
                assert(deref_blocks(r@).to_multiset() == nodes.take(i + 1).to_multiset());
                lemma_sorted_insert_at(deref_blocks(before), *node, j as int);
                assert(nodes.take(i + 1).drop_last() =~= nodes.take(i as int));
                assert(deref_blocks(r@) == sort_blocks(nodes.take(i + 1)));
                assert forall|a: int, b: int| 0 <= a < b < r@.len() implies r@[a].id <= r@[b].id by {
                    if a < j && b > j {
                        assert(before[a].id <= node.id);
                        assert(node.id < before[b - 1].id || j == before.len());
                    } else if a == j as int && b > j {
                        assert(before[b - 1].id > node.id || b - 1 >= before.len());
                        if j < before.len() {
                            assert(before[j as int].id <= before[b - 1].id);
                        }
                    }
                }
                if ids_increasing(nodes) {
                    assert(j == before.len());
                    assert(deref_blocks(r@) =~= nodes.take(i + 1));
                }
            }
            i = i + 1;
        }
        assert(nodes.take(n as int) =~= nodes);
        r
    }

    /// The block with a given id, if the graph has one.
    pub fn block(&self, id: BlockId) -> (r: Option<&BasicBlock>)
        requires
            self.wf(),
        ensures
            r == (if self.index().contains_key(id) {
                Some(&graph_nodes(self.graph)[self.index()[id] as int])
            } else {
                None
            }),
    {
        match block_index_get(&self.block_map, id) {
            Some(pos) => Some(crate::graph::digraph::graph_node(&self.graph, pos)),
            None => None,
        }
    }

    /// Number of blocks.
    pub fn num_blocks(&self) -> (n: usize)
        ensures
            n == graph_nodes(self.graph).len(),
    {
        crate::graph::digraph::graph_node_count(&self.graph)
    }

    /// Export to DOT format for Graphviz: one line per node, one per edge.
    pub fn to_dot(&self) -> (dot: String)
        requires
            self.wf(),
        ensures
            dot@ == dot_text(self.block_list(), self.edge_list()),
    {
        let ghost bs = self.block_list();
        let ghost es = self.edge_list();
        let mut dot = crate::text::owned("digraph CFG {\n");
        crate::text::push_str(&mut dot, "  node [shape=box, fontname=\"monospace\"];\n");
        let ghost head = dot@;
        let n = crate::graph::digraph::graph_node_count(&self.graph);
        let mut i: usize = 0;
        while i < n
            invariant
                bs == self.block_list(),
                n == bs.len(),
                0 <= i <= n,
                dot@ == head + dot_nodes(bs, i as int),
            decreases n - i,
        {
            let block = crate::graph::digraph::graph_node(&self.graph, i);
            proof {
                assert(bs[i as int] == block@);
            }
            crate::text::push_str(&mut dot, "  ");
            crate::text::push_decimal(&mut dot, block.id as u64);
            crate::text::push_str(&mut dot, " [label=\"BB");
            crate::text::push_decimal(&mut dot, block.id as u64);
            crate::text::push_str(&mut dot, " (");
            crate::text::push_decimal(&mut dot, block.instructions.len() as u64);
            crate::text::push_str(&mut dot, " instrs)\"];\n");
            assert(dot@ =~= head + dot_nodes(bs, i + 1));
            i = i + 1;
        }
        let ghost mid = dot@;
        let m = crate::graph::digraph::graph_edge_count(&self.graph);
        let mut e: usize = 0;
        while e < m
            invariant
                bs == self.block_list(),
                es == self.edge_list(),
                self.wf(),
                m == es.len(),
                0 <= e <= m,
                dot@ == mid + dot_edges(bs, es, e as int),
            decreases m - e,
        {
            let (src, dst) = crate::graph::digraph::graph_edge_endpoints(&self.graph, e);
            let kind = crate::graph::digraph::graph_edge_weight(&self.graph, e);
            let a = crate::graph::digraph::graph_node(&self.graph, src).id;
            let b = crate::graph::digraph::graph_node(&self.graph, dst).id;
            crate::text::push_str(&mut dot, "  ");
            crate::text::push_decimal(&mut dot, a as u64);
            crate::text::push_str(&mut dot, " -> ");
            crate::text::push_decimal(&mut dot, b as u64);
            crate::text::push_str(&mut dot, " [");
            match kind {
                EdgeKind::TrueEdge => crate::text::push_str(&mut dot, "color=green"),
                EdgeKind::FalseEdge => crate::text::push_str(&mut dot, "color=red"),
                EdgeKind::ExceptionEdge => crate::text::push_str(&mut dot, "color=orange, style=dashed"),
                EdgeKind::Unconditional => crate::text::push_str(&mut dot, "color=black"),
            }
            crate::text::push_str(&mut dot, "];\n");
            proof {
                assert(bs[src as int].id == a);
                assert(bs[dst as int].id == b);
            }
            assert(dot@ =~= mid + dot_edges(bs, es, e + 1));
            e = e + 1;
        }
        crate::text::push_str(&mut dot, "}\n");
        assert(dot@ =~= dot_text(bs, es));
        dot
    }
}

} // verus!

verus! {

/// What it means for a block to be laid out.
proof fn lemma_laid_out_facts(ir: Seq<IRView>, b: BasicBlockView)
    requires
        block_laid_out(ir, b),
    ensures
        leaders(ir).contains(b.id),
        b.id < ir.len(),
        b.start_address == b.id,
        b.end_address == block_end(leaders(ir), b.id, ir.len() as int),
        b.instructions == ir.subrange(b.id as int, min_int(b.end_address as int, ir.len() as int)),
{
    reveal(block_laid_out);
}

/// The smallest element of `ls` above `l` is `w`, where `w` is above `l` and
/// nothing in `ls` lies strictly between them.
proof fn lemma_block_end_is(ls: Set<u32>, l: u32, w: u32, n: int)
    requires
        ls.contains(w),
        w > l,
        forall|y: u32| ls.contains(y) && y > l ==> w <= y,
    ensures
        block_end(ls, l, n) == w,
{
    reveal(block_end);
    let x = choose|x: u32| ls.contains(x) && x > l && forall|y: u32| ls.contains(y) && y > l ==> x <= y;
    assert(x <= w);
    assert(w <= x);
}

/// In a layout, a block ends where the next one starts.
proof fn lemma_end_is_next_start(ir: Seq<IRView>, bs: Seq<BasicBlockView>, p: int)
    requires
        layout_ok(ir, bs),
        0 <= p < bs.len() - 1,
    ensures
        bs[p].end_address == bs[p + 1].start_address,
{
    let ls = leaders(ir);
    lemma_laid_out_facts(ir, bs[p]);
    lemma_laid_out_facts(ir, bs[p + 1]);
    let l = bs[p].id;
    let w = bs[p + 1].id;
    assert forall|y: u32| ls.contains(y) && y > l implies w <= y by {
        if y < w {
            let q = choose|q: int| 0 <= q < bs.len() && (#[trigger] bs[q]).id == y;
            if q <= p {
                if q < p {
                    assert(bs[q].id < bs[p].id);
                }
            } else if q > p + 1 {
                assert(bs[p + 1].id < bs[q].id);
            }
        }
    }
    lemma_block_end_is(ls, l, w, ir.len() as int);
}

/// A set with an element above `l` has a smallest element above `l`.
proof fn lemma_min_above(ls: Set<u32>, l: u32, y: u32)
    requires
        ls.contains(y),
        y > l,
    ensures
        exists|x: u32| ls.contains(x) && x > l && forall|z: u32| ls.contains(z) && z > l ==> x <= z,
    decreases y,
{
    if exists|z: u32| ls.contains(z) && z > l && z < y {
        let z = choose|z: u32| ls.contains(z) && z > l && z < y;
        lemma_min_above(ls, l, z);
    } else {
        assert(forall|z: u32| ls.contains(z) && z > l ==> y <= z);
    }
}

/// Where no element of `ls` above `l` lies below `n`, the block of `l` ends at or past `n`.
proof fn lemma_block_end_at_least(ls: Set<u32>, l: u32, n: int)
    requires
        forall|x: u32| ls.contains(x) && x > l ==> x >= n,
    ensures
        block_end(ls, l, n) >= n,
{
    reveal(block_end);
    if exists|x: u32| ls.contains(x) && x > l {
        let y = choose|y: u32| ls.contains(y) && y > l;
        lemma_min_above(ls, l, y);
    }
}

/// In a layout, the last block runs to the end of the list.
proof fn lemma_last_runs_to_end(ir: Seq<IRView>, bs: Seq<BasicBlockView>)
    requires
        layout_ok(ir, bs),
        bs.len() > 0,
    ensures
        min_int(bs.last().end_address as int, ir.len() as int) == ir.len(),
{
    let ls = leaders(ir);
    let n = ir.len() as int;
    let last = bs.len() - 1;
    lemma_laid_out_facts(ir, bs[last]);
    let l = bs[last].id;
    assert forall|x: u32| ls.contains(x) && x > l implies x >= n by {
        if x < n {
            let q = choose|q: int| 0 <= q < bs.len() && (#[trigger] bs[q]).id == x;
            if q < last {
                assert(bs[q].id < bs[last].id);
            }
        }
    }
    lemma_block_end_at_least(ls, l, n);
}

/// The blocks of a control-flow graph tile its instruction list: the first
/// starts at instruction 0, each ends where the next starts, the last runs to
/// the end of the list, and each holds exactly the instructions of its range.
pub proof fn law_blocks_tile_instructions(cfg: &CFG, ir: Seq<IRView>)
    requires
        cfg.built_from(ir),
        ir.len() > 0,
    ensures
        cfg.block_list().len() > 0,
        cfg.block_list()[0].start_address == 0,
        forall|p: int| 0 <= p < cfg.block_list().len() - 1 ==>
            (#[trigger] cfg.block_list()[p]).end_address == cfg.block_list()[p + 1].start_address,
        min_int(cfg.block_list().last().end_address as int, ir.len() as int) == ir.len(),
        forall|p: int| 0 <= p < cfg.block_list().len() ==>
            (#[trigger] cfg.block_list()[p]).instructions == ir.subrange(
                cfg.block_list()[p].start_address as int,
                min_int(cfg.block_list()[p].end_address as int, ir.len() as int),
            ),
{
    let bs = cfg.block_list();
    lemma_zero_leads(ir, ir.len() as int);
    reveal(leaders);
    assert(leaders(ir).contains(0u32) && 0 < ir.len());
    let p0 = choose|p: int| 0 <= p < bs.len() && (#[trigger] bs[p]).id == 0;
    if p0 > 0 {
        assert(bs[0].id < bs[p0].id);
    }
    lemma_laid_out_facts(ir, bs[0]);
    assert forall|p: int| 0 <= p < bs.len() - 1 implies
        (#[trigger] bs[p]).end_address == bs[p + 1].start_address by {
        lemma_end_is_next_start(ir, bs, p);
    }
    lemma_last_runs_to_end(ir, bs);
    assert forall|p: int| 0 <= p < bs.len() implies
        (#[trigger] bs[p]).instructions == ir.subrange(
            bs[p].start_address as int,
            min_int(bs[p].end_address as int, ir.len() as int),
        ) by {
        lemma_laid_out_facts(ir, bs[p]);
    }
}


/// The instructions of the first `k` blocks, one block after the other.
pub open spec fn concat_instructions(bs: Seq<BasicBlockView>, k: int) -> Seq<IRView>
    decreases k,
{
    if k <= 0 || k > bs.len() {
        Seq::empty()
    } else {
        concat_instructions(bs, k - 1) + bs[k - 1].instructions
    }
}

/// The instructions of the first `k` blocks are the instructions up to the
/// end of block `k - 1`.
#[verifier::rlimit(40)]
proof fn lemma_concat_prefix(ir: Seq<IRView>, bs: Seq<BasicBlockView>, k: int)
    requires
        1 <= k <= bs.len(),
        bs[0].start_address == 0,
        forall|p: int| 0 <= p < bs.len() ==> (#[trigger] bs[p]).start_address < ir.len(),
        forall|p: int| 0 <= p < bs.len() - 1 ==> (#[trigger] bs[p]).end_address == bs[p + 1].start_address,
        forall|p: int| 0 <= p < bs.len() - 1 ==> (#[trigger] bs[p]).start_address < bs[p + 1].start_address,
        min_int(bs.last().end_address as int, ir.len() as int) == ir.len(),
        forall|p: int| 0 <= p < bs.len() ==> (#[trigger] bs[p]).instructions == ir.subrange(
            bs[p].start_address as int,
            min_int(bs[p].end_address as int, ir.len() as int),
        ),
    ensures
        concat_instructions(bs, k) == ir.subrange(0, min_int(bs[k - 1].end_address as int, ir.len() as int)),
    decreases k,
{
    if k > 1 {
        lemma_concat_prefix(ir, bs, k - 1);
        let a = bs[k - 2];
        let b = bs[k - 1];
        assert(a.end_address == b.start_address);
        assert(b.start_address < ir.len());
        assert(min_int(a.end_address as int, ir.len() as int) == b.start_address);
        if k < bs.len() {
            assert(b.end_address == bs[k].start_address);
            assert(b.start_address < bs[k].start_address);
        } else {
            assert(bs.last() == b);
        }
        assert(b.start_address <= min_int(b.end_address as int, ir.len() as int));
        assert(concat_instructions(bs, k) =~= ir.subrange(0, min_int(b.end_address as int, ir.len() as int)));
    } else {
        assert(concat_instructions(bs, 0) =~= Seq::<IRView>::empty());
        assert(concat_instructions(bs, 1) =~= bs[0].instructions);
    }
}

/// Put together in order, the blocks' instructions are exactly the
/// instructions the graph was built from.
pub proof fn law_blocks_concatenate(cfg: &CFG, ir: Seq<IRView>)
    requires
        cfg.built_from(ir),
    ensures
        concat_instructions(cfg.block_list(), cfg.block_list().len() as int) == ir,
{
    let bs = cfg.block_list();
    if ir.len() == 0 {
        assert(bs == seq![empty_block_view()]);
        assert(concat_instructions(bs, 0) =~= Seq::<IRView>::empty());
        assert(concat_instructions(bs, 1) =~= Seq::<IRView>::empty());
        assert(ir =~= Seq::<IRView>::empty());
    } else {
        law_blocks_tile_instructions(cfg, ir);
        assert forall|p: int| 0 <= p < bs.len() implies (#[trigger] bs[p]).start_address < ir.len() by {
            lemma_laid_out_facts(ir, bs[p]);
        }
        assert forall|p: int| 0 <= p < bs.len() - 1 implies (#[trigger] bs[p]).start_address < bs[p + 1].start_address by {
            lemma_laid_out_facts(ir, bs[p]);
            lemma_laid_out_facts(ir, bs[p + 1]);
        }
        lemma_concat_prefix(ir, bs, bs.len() as int);
        assert(bs.last() == bs[bs.len() - 1]);
        assert(ir.subrange(0, ir.len() as int) =~= ir);
    }
}

/// How many times `x` occurs in `s`.
pub open spec fn count_in(s: Seq<u32>, x: u32) -> nat
    decreases s.len(),
{
    if s.len() == 0 {
        0
    } else {
        count_in(s.drop_last(), x) + if s.last() == x { 1nat } else { 0nat }
    }
}

/// Among the first `k` edges, the successors of `p` name `ids[q]` as often
/// as the predecessors of `q` name `ids[p]`: both count the edges from `p`
/// to `q`.
proof fn lemma_succ_pred_count(es: Seq<Edge>, ids: Seq<u32>, p: int, q: int, k: int)
    requires
        0 <= p < ids.len(),
        0 <= q < ids.len(),
        0 <= k <= es.len(),
        forall|a: int, b: int| 0 <= a < b < ids.len() ==> ids[a] != ids[b],
        forall|e: int| 0 <= e < es.len() ==> (#[trigger] es[e]).0 < ids.len() && es[e].1 < ids.len(),
    ensures
        count_in(successors_upto(es, ids, p, k), ids[q]) == count_in(predecessors_upto(es, ids, q, k), ids[p]),
    decreases k,
{
    if k > 0 {
        lemma_succ_pred_count(es, ids, p, q, k - 1);
        let e = es[k - 1];
        let s0 = successors_upto(es, ids, p, k - 1);
        let r0 = predecessors_upto(es, ids, q, k - 1);
        if e.0 == p {
            assert(successors_upto(es, ids, p, k).drop_last() =~= s0);
            assert((ids[e.1 as int] == ids[q]) == (e.1 == q)) by {
                if e.1 as int != q {
                    if (e.1 as int) < q {
                        assert(ids[e.1 as int] != ids[q]);
                    } else {
                        assert(ids[q] != ids[e.1 as int]);
                    }
                }
            }
        }
        if e.1 == q {
            assert(predecessors_upto(es, ids, q, k).drop_last() =~= r0);
            assert((ids[e.0 as int] == ids[p]) == (e.0 == p)) by {
                if e.0 as int != p {
                    if (e.0 as int) < p {
                        assert(ids[e.0 as int] != ids[p]);
                    } else {
                        assert(ids[p] != ids[e.0 as int]);
                    }
                }
            }
        }
    }
}

/// Every edge is listed on both ends: block `b` appears among the
/// successors of block `a` as often as `a` appears among the predecessors of
/// `b`.
pub proof fn law_successors_match_predecessors(cfg: &CFG, ir: Seq<IRView>, a: int, b: int)
    requires
        cfg.built_from(ir),
        cfg.wf(),
        0 <= a < cfg.block_list().len(),
        0 <= b < cfg.block_list().len(),
    ensures
        count_in(cfg.block_list()[a].successors, cfg.block_list()[b].id)
            == count_in(cfg.block_list()[b].predecessors, cfg.block_list()[a].id),
{
    let bs = cfg.block_list();
    let es = cfg.edge_list();
    let ids = block_ids(bs);
    assert(ids.len() == bs.len());
    assert forall|x: int, y: int| 0 <= x < y < ids.len() implies ids[x] != ids[y] by {
        if ir.len() > 0 {
            assert(bs[x].id < bs[y].id);
        }
    }
    assert forall|e: int| 0 <= e < es.len() implies (#[trigger] es[e]).0 < ids.len() && es[e].1 < ids.len() by {
        assert(cfg.edge_list()[e] == es[e]);
    }
    lemma_succ_pred_count(es, ids, a, b, es.len() as int);
    assert(ids[a] == bs[a].id && ids[b] == bs[b].id);
}

/// An instruction that ends a block: a branch, a jump, a return or a throw.
pub open spec fn ends_block(x: IRView) -> bool {
    x is Branch || x is Jump || x is Return || x is Throw
}

proof fn lemma_leaders_grow(ir: Seq<IRView>, j: int, k: int)
    requires
        0 <= j <= k,
    ensures
        leaders_upto(ir, j).subset_of(leaders_upto(ir, k)),
    decreases k - j,
{
    if j < k {
        lemma_leaders_grow(ir, j, k - 1);
    }
}

/// A block ends no later than any leader above its own.
proof fn lemma_block_end_at_most(ls: Set<u32>, l: u32, w: u32, n: int)
    requires
        ls.contains(w),
        w > l,
    ensures
        block_end(ls, l, n) <= w,
{
    reveal(block_end);
    lemma_min_above(ls, l, w);
}

/// A block ends past its leader.
proof fn lemma_block_end_above(ls: Set<u32>, l: u32, n: int)
    requires
        l < n,
    ensures
        block_end(ls, l, n) > l,
{
    reveal(block_end);
    if exists|x: u32| ls.contains(x) && x > l {
        let y = choose|y: u32| ls.contains(y) && y > l;
        lemma_min_above(ls, l, y);
    }
}

/// Only the last instruction of a block can end it: no instruction before
/// the last is a branch, a jump, a return or a throw.
pub proof fn law_terminator_ends_block(cfg: &CFG, ir: Seq<IRView>, p: int, k: int)
    requires
        cfg.built_from(ir),
        ir.len() < u32::MAX,
        0 <= p < cfg.block_list().len(),
        0 <= k < cfg.block_list()[p].instructions.len() - 1,
    ensures
        !ends_block(cfg.block_list()[p].instructions[k]),
{
    let bs = cfg.block_list();
    if ir.len() == 0 {
        assert(bs == seq![empty_block_view()]);
        assert(bs[p].instructions.len() == 0);
    } else {
        let b = bs[p];
        assert(block_laid_out(ir, bs[p]));
        lemma_laid_out_facts(ir, b);
        let l = b.id as int;
        let n = ir.len() as int;
        let i = l + k;
        let e = min_int(b.end_address as int, n);
        lemma_block_end_above(leaders(ir), b.id, n);
        assert(l < e <= n);
        assert(b.instructions == ir.subrange(l, e));
        assert(b.instructions[k] == ir[i]);
        if ends_block(ir[i]) {
            assert(i + 1 < e);
            let w = (i + 1) as u32;
            assert(leaders_at(ir, i).contains(w));
            assert(leaders_upto(ir, i + 1) == leaders_upto(ir, i) + leaders_at(ir, i));
            lemma_leaders_grow(ir, i + 1, n);
            reveal(leaders);
            assert(leaders(ir).contains(w));
            lemma_block_end_at_most(leaders(ir), b.id, w, n);
        }
    }
}

/// `t` as a successor, where some block has that id.
pub open spec fn successor_if_block(ids: Seq<u32>, t: u32) -> Seq<u32> {
    if ids.contains(t) { seq![t] } else { Seq::empty() }
}

/// The successors of a block, read off its last instruction: none after a
/// return or a throw; the target of a jump; the true then the false target
/// of a branch; otherwise the block that starts where this one ends. A
/// target that no block has is left out.
pub open spec fn block_successors(b: BasicBlockView, ids: Seq<u32>) -> Seq<u32> {
    if b.instructions.len() == 0 {
        Seq::empty()
    } else {
        match b.instructions.last() {
            IRView::Branch { true_target, false_target, .. } =>
                successor_if_block(ids, true_target) + successor_if_block(ids, false_target),
            IRView::Jump(t) => successor_if_block(ids, t),
            IRView::Return(_) => Seq::empty(),
            IRView::Throw(_) => Seq::empty(),
            _ => successor_if_block(ids, b.end_address as u32),
        }
    }
}

proof fn lemma_succ_prefix(a: Seq<Edge>, b: Seq<Edge>, ids: Seq<u32>, p: int, k: int)
    requires
        0 <= k <= a.len(),
        k <= b.len(),
        forall|i: int| 0 <= i < k ==> a[i] == b[i],
    ensures
        successors_upto(a, ids, p, k) == successors_upto(b, ids, p, k),
    decreases k,
{
    if k > 0 {
        lemma_succ_prefix(a, b, ids, p, k - 1);
    }
}

proof fn lemma_succ_concat(a: Seq<Edge>, b: Seq<Edge>, ids: Seq<u32>, p: int, j: int)
    requires
        0 <= j <= b.len(),
    ensures
        successors_upto(a + b, ids, p, a.len() + j)
            == successors_upto(a, ids, p, a.len() as int) + successors_upto(b, ids, p, j),
    decreases j,
{
    if j == 0 {
        lemma_succ_prefix(a + b, a, ids, p, a.len() as int);
        assert(successors_upto(a, ids, p, a.len() as int) + successors_upto(b, ids, p, 0)
            =~= successors_upto(a, ids, p, a.len() as int));
    } else {
        lemma_succ_concat(a, b, ids, p, j - 1);
        assert((a + b)[a.len() + j - 1] == b[j - 1]);
        let x = successors_upto(a, ids, p, a.len() as int);
        let y = successors_upto(b, ids, p, j - 1);
        assert((x + y).push(ids[b[j - 1].1 as int]) =~= x + y.push(ids[b[j - 1].1 as int]));
    }
}

proof fn lemma_edge_to_succ(m: Map<u32, usize>, q: int, t: u32, k: EdgeKind, ids: Seq<u32>, p: int)
    requires
        0 <= q <= usize::MAX,
        0 <= p <= usize::MAX,
    ensures
        successors_upto(edge_to(m, q, t, k), ids, p, edge_to(m, q, t, k).len() as int)
            == if p == q { target_by_position(m, ids, t) } else { Seq::<u32>::empty() },
{
    let e = edge_to(m, q, t, k);
    if m.contains_key(t) {
        assert(e.len() == 1);
        assert(e[0].0 as int == q);
        assert(successors_upto(e, ids, p, 0) == Seq::<u32>::empty());
        if p == q {
            assert(successors_upto(e, ids, p, 1) =~= seq![ids[m[t] as int]]);
        } else {
            assert(successors_upto(e, ids, p, 1) =~= Seq::<u32>::empty());
        }
    } else {
        assert(e.len() == 0);
    }
}

/// The successors that the edges of the block at position `q` give the
/// block at position `p`: its targets, read by id, where `q` is `p`.
proof fn lemma_block_edges_succ(b: BasicBlockView, q: int, m: Map<u32, usize>, ids: Seq<u32>, p: int)
    requires
        0 <= q <= usize::MAX,
        0 <= p <= usize::MAX,
    ensures
        successors_upto(block_out_edges(b, q, m), ids, p, block_out_edges(b, q, m).len() as int)
            == if p == q { targets_by_position(b, m, ids) } else { Seq::<u32>::empty() },
{
    if b.instructions.len() > 0 {
        match b.instructions.last() {
            IRView::Branch { true_target, false_target, .. } => {
                let e1 = edge_to(m, q, true_target, EdgeKind::TrueEdge);
                let e2 = edge_to(m, q, false_target, EdgeKind::FalseEdge);
                lemma_succ_concat(e1, e2, ids, p, e2.len() as int);
                lemma_edge_to_succ(m, q, true_target, EdgeKind::TrueEdge, ids, p);
                lemma_edge_to_succ(m, q, false_target, EdgeKind::FalseEdge, ids, p);
                if p != q {
                    assert(Seq::<u32>::empty() + Seq::<u32>::empty() =~= Seq::<u32>::empty());
                }
            },
            IRView::Jump(t) => {
                lemma_edge_to_succ(m, q, t, EdgeKind::Unconditional, ids, p);
            },
            IRView::Return(_) => {},
            IRView::Throw(_) => {},
            _ => {
                lemma_edge_to_succ(m, q, b.end_address as u32, EdgeKind::Unconditional, ids, p);
            },
        }
    }
}

/// The ids of the blocks that block `b` at position `q` has edges to, in edge order.
pub open spec fn targets_by_position(b: BasicBlockView, m: Map<u32, usize>, ids: Seq<u32>) -> Seq<u32> {
    if b.instructions.len() == 0 {
        Seq::empty()
    } else {
        match b.instructions.last() {
            IRView::Branch { true_target, false_target, .. } =>
                target_by_position(m, ids, true_target) + target_by_position(m, ids, false_target),
            IRView::Jump(t) => target_by_position(m, ids, t),
            IRView::Return(_) => Seq::empty(),
            IRView::Throw(_) => Seq::empty(),
            _ => target_by_position(m, ids, b.end_address as u32),
        }
    }
}

/// The id at the position that the map gives `t`, where it gives one.
pub open spec fn target_by_position(m: Map<u32, usize>, ids: Seq<u32>, t: u32) -> Seq<u32> {
    if m.contains_key(t) { seq![ids[m[t] as int]] } else { Seq::empty() }
}

proof fn lemma_edges_upto_succ(bs: Seq<BasicBlockView>, m: Map<u32, usize>, ids: Seq<u32>, p: int, k: int)
    requires
        0 <= k <= bs.len(),
        bs.len() <= usize::MAX,
        0 <= p < bs.len(),
    ensures
        successors_upto(edges_upto(bs, m, k), ids, p, edges_upto(bs, m, k).len() as int)
            == if p < k { targets_by_position(bs[p], m, ids) } else { Seq::<u32>::empty() },
    decreases k,
{
    if k > 0 {
        lemma_edges_upto_succ(bs, m, ids, p, k - 1);
        let a = edges_upto(bs, m, k - 1);
        let b = block_out_edges(bs[k - 1], k - 1, m);
        lemma_succ_concat(a, b, ids, p, b.len() as int);
        lemma_block_edges_succ(bs[k - 1], k - 1, m, ids, p);
        if p < k - 1 {
            assert(targets_by_position(bs[p], m, ids) + Seq::<u32>::empty() =~= targets_by_position(bs[p], m, ids));
        } else if p == k - 1 {
            assert(Seq::<u32>::empty() + targets_by_position(bs[p], m, ids) =~= targets_by_position(bs[p], m, ids));
        } else {
            assert(Seq::<u32>::empty() + Seq::<u32>::empty() =~= Seq::<u32>::empty());
        }
    }
}

/// Each block's successors are read off its last instruction: none after a
/// return or a throw, the target of a jump, the true then the false target
/// of a branch, and otherwise the block that starts where it ends; a target
/// that is not a block id is left out.
pub proof fn law_block_successors(cfg: &CFG, ir: Seq<IRView>, p: int)
    requires
        cfg.built_from(ir),
        ir.len() < u32::MAX,
        0 <= p < cfg.block_list().len(),
    ensures
        cfg.block_list()[p].successors == block_successors(cfg.block_list()[p], block_ids(cfg.block_list())),
{
    let bs = cfg.block_list();
    let es = cfg.edge_list();
    let m = cfg.index();
    let ids = block_ids(bs);
    if ir.len() == 0 {
        assert(bs == seq![empty_block_view()]);
        assert(bs[0].instructions.len() == 0);
        assert(edges_upto(bs, m, 0) == Seq::<Edge>::empty());
        assert(es == edges_upto(bs, m, 1));
        assert(edges_upto(bs, m, 1) =~= Seq::<Edge>::empty());
        assert(bs[p].successors == successors_upto(es, ids, p, 0));
    } else {
        assert(strictly_increasing(ids)) by {
            assert forall|i: int, j: int| 0 <= i < j < ids.len() implies ids[i] < ids[j] by {
                assert(bs[i].id < bs[j].id);
            }
        }
        let last = bs.len() - 1;
        lemma_increasing_at_least_index(ids, last);
        assert(block_laid_out(ir, bs[last]));
        lemma_laid_out_facts(ir, bs[last]);
        assert(bs.len() <= ir.len());
        lemma_edges_upto_succ(bs, m, ids, p, bs.len() as int);
        assert(bs[p].successors == successors_upto(es, ids, p, es.len() as int));
        assert forall|t: u32| m.contains_key(t) == ids.contains(t) && (m.contains_key(t) ==> ids[m[t] as int] == t) by {
            if m.contains_key(t) {
                let q = choose|q: int| 0 <= q < bs.len() && (#[trigger] bs[q]).id == t;
                assert(m[bs[q].id] == q);
                assert(ids[q] == t);
            }
            if ids.contains(t) {
                let q = choose|q: int| 0 <= q < ids.len() && ids[q] == t;
                assert(bs[q].id == t);
            }
        }
        let b = bs[p];
        if b.instructions.len() > 0 {
            match b.instructions.last() {
                IRView::Branch { true_target, false_target, .. } => {
                    assert(target_by_position(m, ids, true_target) == successor_if_block(ids, true_target));
                    assert(target_by_position(m, ids, false_target) == successor_if_block(ids, false_target));
                },
                IRView::Jump(t) => {
                    assert(target_by_position(m, ids, t) == successor_if_block(ids, t));
                },
                IRView::Return(_) => {},
                IRView::Throw(_) => {},
                _ => {
                    assert(target_by_position(m, ids, b.end_address as u32) == successor_if_block(ids, b.end_address as u32));
                },
            }
        }
    }
}

/// Instruction `x` jumps or branches to `t`.
pub open spec fn branches_to(x: IRView, t: u32) -> bool {
    match x {
        IRView::Jump(j) => j == t,
        IRView::Branch { true_target, false_target, .. } => true_target == t || false_target == t,
        _ => false,
    }
}

/// Position `x` starts a block of `ir`: it is the first instruction, it
/// follows an instruction that ends a block, or some jump or branch targets it.
pub open spec fn starts_block(ir: Seq<IRView>, x: u32) -> bool {
    ||| x == 0
    ||| exists|i: int| 0 <= i < ir.len() && #[trigger] ends_block(ir[i]) && i + 1 < ir.len() && x == i + 1
    ||| exists|i: int| 0 <= i < ir.len() && #[trigger] branches_to(ir[i], x)
}

proof fn lemma_leaders_upto_members(ir: Seq<IRView>, k: int, x: u32)
    requires
        0 <= k <= ir.len(),
        ir.len() < u32::MAX,
    ensures
        leaders_upto(ir, k).contains(x) <==> (x == 0
            || (exists|i: int| 0 <= i < k && #[trigger] ends_block(ir[i]) && i + 1 < ir.len() && x == i + 1)
            || (exists|i: int| 0 <= i < k && #[trigger] branches_to(ir[i], x))),
    decreases k,
{
    if k > 0 {
        lemma_leaders_upto_members(ir, k - 1, x);
        let i = k - 1;
        assert(leaders_upto(ir, k) == leaders_upto(ir, k - 1) + leaders_at(ir, i));
        assert(leaders_at(ir, i).contains(x) <==> ((ends_block(ir[i]) && i + 1 < ir.len() && x == i + 1)
            || branches_to(ir[i], x)));
        if leaders_upto(ir, k).contains(x) && !leaders_upto(ir, k - 1).contains(x) {
            assert(leaders_at(ir, i).contains(x));
        }
    }
}

/// The blocks start exactly where the instruction list says: at the first
/// instruction, after each instruction that ends a block, and at each jump
/// or branch target inside the list.
pub proof fn law_block_leaders(cfg: &CFG, ir: Seq<IRView>, x: u32)
    requires
        cfg.built_from(ir),
        0 < ir.len() < u32::MAX,
    ensures
        block_ids(cfg.block_list()).contains(x) <==> (x < ir.len() && starts_block(ir, x)),
{
    let bs = cfg.block_list();
    let ids = block_ids(bs);
    lemma_leaders_upto_members(ir, ir.len() as int, x);
    reveal(leaders);
    if ids.contains(x) {
        let q = choose|q: int| 0 <= q < ids.len() && ids[q] == x;
        assert(block_laid_out(ir, bs[q]));
        lemma_laid_out_facts(ir, bs[q]);
    }
    if x < ir.len() && starts_block(ir, x) {
        assert(leaders(ir).contains(x));
        let q = choose|q: int| 0 <= q < bs.len() && (#[trigger] bs[q]).id == x;
        assert(ids[q] == x);
    }
}

} // verus!
