//! Natural-loop detection.

use vstd::prelude::*;
use std::collections::BTreeSet;
use crate::lifter::ir::BlockId;
use super::cfg::{CFG, BasicBlockView, copy_ids};
use super::digraph::{graph_nodes, graph_node, graph_node_count};
use super::dominators::{DominatorTree, chain_reaches, WALK_LIMIT};
use super::order::{sorted_keys, strictly_increasing};

verus! {

broadcast use vstd::std_specs::btree::group_btree_axioms;

/// The shape of a loop.
#[derive(Debug, Clone, Copy, PartialEq, Eq, Structural)]
pub enum LoopKind {
    While,
    DoWhile,
    For,
    Infinite,
}

/// Information about a detected loop.
#[derive(Debug, Clone)]
pub struct LoopInfo {
    pub header: BlockId,
    pub body: Vec<BlockId>,
    pub back_edges: Vec<(BlockId, BlockId)>,
    pub kind: LoopKind,
    pub exit_blocks: Vec<BlockId>,
}

/// The model of a loop: its lists as sequences.
pub struct LoopInfoView {
    pub header: BlockId,
    pub body: Seq<BlockId>,
    pub back_edges: Seq<(BlockId, BlockId)>,
    pub kind: LoopKind,
    pub exit_blocks: Seq<BlockId>,
}

impl View for LoopInfo {
    type V = LoopInfoView;

    open spec fn view(&self) -> LoopInfoView {
        LoopInfoView {
            header: self.header,
            body: self.body@,
            back_edges: self.back_edges@,
            kind: self.kind,
            exit_blocks: self.exit_blocks@,
        }
    }
}

/// The block with a given id in a graph, if any.
pub open spec fn block_of(cfg: &CFG, id: u32) -> Option<BasicBlockView> {
    if cfg.index().contains_key(id) {
        Some(cfg.block_list()[cfg.index()[id] as int])
    } else {
        None
    }
}

/// The predecessors of the block with a given id, none where there is no such block.
pub open spec fn preds_of(cfg: &CFG, id: u32) -> Seq<u32> {
    match block_of(cfg, id) {
        Some(b) => b.predecessors,
        None => Seq::empty(),
    }
}

/// Step `i` of a walk leaves a block other than the header for one of its predecessors.
pub open spec fn walk_step(cfg: &CFG, header: u32, path: Seq<u32>, i: int) -> bool {
    path[i] != header && preds_of(cfg, path[i]).contains(path[i + 1])
}

/// A walk backwards along predecessor lists from `tail` that never passes
/// through `header` before its last step.
pub open spec fn back_walk(cfg: &CFG, header: u32, tail: u32, path: Seq<u32>) -> bool {
    &&& path.len() >= 1
    &&& path[0] == tail
    &&& forall|i: int| 0 <= i < path.len() - 1 ==> #[trigger] walk_step(cfg, header, path, i)
}

/// The natural loop of the back edge from `tail` to `header`: the header, and
/// every block other than the header that a walk backwards from the tail
/// reaches without passing through the header.
pub open spec fn in_natural_loop(cfg: &CFG, header: u32, tail: u32, x: u32) -> bool {
    x == header || (x != header && has_walk(cfg, header, tail, x))
}

/// Some header-free walk back from `tail` ends at `x`.
pub open spec fn has_walk(cfg: &CFG, header: u32, tail: u32, x: u32) -> bool {
    exists|path: Seq<u32>| back_walk(cfg, header, tail, path) && path.last() == x
}

} // verus!

verus! {

/// The predecessor lists of the first `k` blocks, one after another.
pub open spec fn all_preds(bs: Seq<BasicBlockView>, k: int) -> Seq<u32>
    decreases k,
{
    if k <= 0 {
        Seq::empty()
    } else {
        all_preds(bs, k - 1) + bs[k - 1].predecessors
    }
}

/// Every predecessor of a block is among all predecessors.
proof fn lemma_all_preds_has(bs: Seq<BasicBlockView>, k: int, p: int, x: u32)
    requires
        0 <= p < k <= bs.len(),
        bs[p].predecessors.contains(x),
    ensures
        all_preds(bs, k).contains(x),
    decreases k,
{
    if p < k - 1 {
        lemma_all_preds_has(bs, k - 1, p, x);
        let s = all_preds(bs, k - 1);
        let i = choose|i: int| 0 <= i < s.len() && s[i] == x;
        assert(all_preds(bs, k)[i] == x);
    } else {
        let s = bs[p].predecessors;
        let i = choose|i: int| 0 <= i < s.len() && s[i] == x;
        assert(all_preds(bs, k)[all_preds(bs, k - 1).len() + i] == x);
    }
}

/// Every block of a header-free walk back from the tail is in a set that
/// holds the tail and the predecessors of each of its blocks other than the header.
proof fn lemma_walk_in_closed(cfg: &CFG, header: u32, tail: u32, path: Seq<u32>, s: Set<u32>, i: int)
    requires
        back_walk(cfg, header, tail, path),
        s.contains(tail),
        forall|y: u32, j: int| s.contains(y) && y != header && 0 <= j < preds_of(cfg, y).len()
            ==> s.contains(#[trigger] preds_of(cfg, y)[j]),
        0 <= i < path.len(),
    ensures
        s.contains(path[i]),
    decreases i,
{
    if i > 0 {
        lemma_walk_in_closed(cfg, header, tail, path, s, i - 1);
        assert(walk_step(cfg, header, path, i - 1));
        let ps = preds_of(cfg, path[i - 1]);
        let j = choose|j: int| 0 <= j < ps.len() && ps[j] == path[i];
        assert(s.contains(ps[j]));
    }
}

/// An element of a stack that is not its top is still there after the top is
/// replaced by other elements.
proof fn lemma_below_top(old_stack: Seq<u32>, new_stack: Seq<u32>, q: u32)
    requires
        old_stack.len() >= 1,
        new_stack.len() >= old_stack.len() - 1,
        new_stack.take(old_stack.len() - 1) == old_stack.drop_last(),
        old_stack.contains(q),
        q != old_stack.last(),
    ensures
        new_stack.contains(q),
{
    let i = choose|i: int| 0 <= i < old_stack.len() && old_stack[i] == q;
    assert(i < old_stack.len() - 1);
    assert(new_stack.take(old_stack.len() - 1)[i] == q);
}

/// A walk extended by a predecessor of its last block, other than the header.
proof fn lemma_extend_walk(cfg: &CFG, header: u32, tail: u32, path: Seq<u32>, pred: u32)
    requires
        back_walk(cfg, header, tail, path),
        path.last() != header,
        preds_of(cfg, path.last()).contains(pred),
    ensures
        back_walk(cfg, header, tail, path.push(pred)),
        path.push(pred).last() == pred,
{
    let np = path.push(pred);
    assert forall|i: int| 0 <= i < np.len() - 1 implies #[trigger] walk_step(cfg, header, np, i) by {
        if i < path.len() - 1 {
            assert(walk_step(cfg, header, path, i));
        }
    }
}

/// The natural loop of the back edge from `tail` to `header`, in increasing order.
fn compute_loop_body(cfg: &CFG, header: BlockId, tail: BlockId) -> (body: Vec<BlockId>)
    requires
        cfg.wf(),
    ensures
        strictly_increasing(body@),
        forall|x: u32| body@.contains(x) <==> in_natural_loop(cfg, header, tail, x),
{
    let ghost bs = cfg.block_list();
    let ghost ap = all_preds(bs, bs.len() as int);
    let ghost uni = ap.push(tail).to_set();
    proof {
        vstd::seq_lib::seq_to_set_is_finite(ap.push(tail));
        assert(ap.push(tail)[ap.len() as int] == tail);
        assert(back_walk(cfg, header, tail, seq![tail]));
        assert(seq![tail].last() == tail);
        assert(has_walk(cfg, header, tail, tail));
    }
    let mut seen: BTreeSet<u32> = BTreeSet::new();
    seen.insert(header);
    let mut stack: Vec<u32> = Vec::new();
    stack.push(tail);
    while stack.len() > 0
        invariant
            cfg.wf(),
            bs == cfg.block_list(),
            ap == all_preds(bs, bs.len() as int),
            uni == ap.push(tail).to_set(),
            uni.finite(),
            seen@.finite(),
            seen@.contains(header),
            forall|x: u32| #[trigger] seen@.contains(x) && x != header ==> uni.contains(x)
                && has_walk(cfg, header, tail, x),
            forall|i: int| 0 <= i < stack@.len() ==> uni.contains(#[trigger] stack@[i])
                && has_walk(cfg, header, tail, stack@[i]),
            forall|y: u32, j: int| seen@.contains(y) && y != header && 0 <= j < preds_of(cfg, y).len()
                ==> seen@.contains(#[trigger] preds_of(cfg, y)[j]) || stack@.contains(preds_of(cfg, y)[j]),
            seen@.contains(tail) || stack@.contains(tail),
        decreases uni.difference(seen@).len(), stack@.len(),
    {
        let ghost old_stack = stack@;
        let ghost old_seen = seen@;
        let block = stack.pop().unwrap();
        proof {
            assert(old_stack.last() == block);
            assert(stack@ =~= old_stack.drop_last());
        }
        if !seen.contains(&block) {
            seen.insert(block);
            let ghost path = choose|path: Seq<u32>| back_walk(cfg, header, tail, path) && path.last() == block;
            proof {
                assert(uni.contains(old_stack[old_stack.len() - 1]));
                assert(uni.difference(seen@) =~= uni.difference(old_seen).remove(block));
                assert(uni.difference(old_seen).contains(block));
            }
            match cfg.block(block) {
                Some(b) => {
                    proof {
                        assert(block_of(cfg, block) == Some(b@));
                    }
                    let ghost before_inner = stack@;
                    let mut k: usize = 0;
                    while k < b.predecessors.len()
                        invariant
                            cfg.wf(),
                            bs == cfg.block_list(),
                            ap == all_preds(bs, bs.len() as int),
                            uni == ap.push(tail).to_set(),
                            b@.predecessors == preds_of(cfg, block),
                            cfg.index().contains_key(block),
                            bs[cfg.index()[block] as int] == b@,
                            back_walk(cfg, header, tail, path) && path.last() == block,
                            block != header,
                            seen@ == old_seen.insert(block),
                            forall|x: u32| #[trigger] old_seen.contains(x) && x != header ==> uni.contains(x)
                                && has_walk(cfg, header, tail, x),
                            0 <= k <= b.predecessors@.len(),
                            stack@ == before_inner + b.predecessors@.take(k as int),
                            forall|i: int| 0 <= i < stack@.len() ==> uni.contains(#[trigger] stack@[i])
                                && has_walk(cfg, header, tail, stack@[i]),
                        decreases b.predecessors@.len() - k,
                    {
                        let pred = b.predecessors[k];
                        proof {
                            let p = cfg.index()[block] as int;
                            assert(b@.predecessors[k as int] == pred);
                            assert(bs[p].predecessors.contains(pred));
                            lemma_all_preds_has(bs, bs.len() as int, p, pred);
                            let i = choose|i: int| 0 <= i < ap.len() && ap[i] == pred;
                            assert(ap.push(tail)[i] == pred);
                            lemma_extend_walk(cfg, header, tail, path, pred);
                        }
                        stack.push(pred);
                        k = k + 1;
                        proof {
                            assert(stack@ =~= before_inner + b.predecessors@.take(k as int));
                            assert(path.push(pred).last() == stack@[stack@.len() - 1]);
                            assert(has_walk(cfg, header, tail, pred));
                        }
                    }
                    proof {
                        assert(b.predecessors@.take(b.predecessors@.len() as int) =~= b.predecessors@);
                        assert forall|j: int| 0 <= j < preds_of(cfg, block).len() implies
                            stack@.contains(#[trigger] preds_of(cfg, block)[j]) by {
                            assert(stack@[before_inner.len() + j] == preds_of(cfg, block)[j]);
                        }
                        assert(stack@.take(old_stack.len() - 1) =~= old_stack.drop_last());
                    }
                },
                None => {
                    proof {
                        assert(preds_of(cfg, block) =~= Seq::<u32>::empty());
                        assert(stack@.take(old_stack.len() - 1) =~= old_stack.drop_last());
                    }
                },
            }
            proof {
                assert(back_walk(cfg, header, tail, path) && path.last() == block);
                assert(has_walk(cfg, header, tail, block));
                assert forall|x: u32| #[trigger] seen@.contains(x) && x != header implies uni.contains(x)
                    && has_walk(cfg, header, tail, x) by {
                    if x == block {
                    } else {
                        assert(old_seen.contains(x));
                    }
                }
                assert forall|y: u32, j: int| seen@.contains(y) && y != header && 0 <= j < preds_of(cfg, y).len()
                    implies seen@.contains(#[trigger] preds_of(cfg, y)[j]) || stack@.contains(preds_of(cfg, y)[j]) by {
                    let q = preds_of(cfg, y)[j];
                    if y != block && !seen@.contains(q) {
                        assert(old_stack.contains(q));
                        lemma_below_top(old_stack, stack@, q);
                    }
                }
                if !seen@.contains(tail) {
                    lemma_below_top(old_stack, stack@, tail);
                }
            }
        } else {
            proof {
                assert(stack@.take(old_stack.len() - 1) =~= old_stack.drop_last());
                assert forall|y: u32, j: int| seen@.contains(y) && y != header && 0 <= j < preds_of(cfg, y).len()
                    implies seen@.contains(#[trigger] preds_of(cfg, y)[j]) || stack@.contains(preds_of(cfg, y)[j]) by {
                    let q = preds_of(cfg, y)[j];
                    if !seen@.contains(q) {
                        lemma_below_top(old_stack, stack@, q);
                    }
                }
                if !seen@.contains(tail) {
                    lemma_below_top(old_stack, stack@, tail);
                }
            }
        }
    }
    let body = sorted_keys(&seen);
    proof {
        assert(seen@.contains(tail));
        assert forall|y: u32, j: int| seen@.contains(y) && y != header && 0 <= j < preds_of(cfg, y).len()
            implies seen@.contains(#[trigger] preds_of(cfg, y)[j]) by {
            assert(!stack@.contains(preds_of(cfg, y)[j]));
        }
        assert forall|x: u32| body@.contains(x) <==> in_natural_loop(cfg, header, tail, x) by {
            assert(body@.to_set().contains(x) == body@.contains(x));
            if body@.contains(x) {
                assert(seen@.contains(x));
            }
            if in_natural_loop(cfg, header, tail, x) && x != header {
                let path = choose|path: Seq<u32>| back_walk(cfg, header, tail, path) && path.last() == x;
                lemma_walk_in_closed(cfg, header, tail, path, seen@, path.len() - 1);
            }
        }
    }
    body
}

} // verus!

verus! {

/// Some element of `succ` lies outside `body`.
pub open spec fn leaves(succ: Seq<u32>, body: Seq<u32>) -> bool {
    exists|j: int| 0 <= j < succ.len() && !body.contains(#[trigger] succ[j])
}

/// The blocks among the first `k` of `body` that have a successor outside it, in order.
pub open spec fn exits_upto(cfg: &CFG, body: Seq<u32>, k: int) -> Seq<u32>
    decreases k,
{
    if k <= 0 {
        Seq::empty()
    } else {
        exits_upto(cfg, body, k - 1) + match block_of(cfg, body[k - 1]) {
            Some(b) => if leaves(b.successors, body) { seq![body[k - 1]] } else { Seq::empty() },
            None => Seq::empty(),
        }
    }
}

/// Whether a list holds a value.
fn list_contains(v: &[u32], x: u32) -> (r: bool)
    ensures
        r == v@.contains(x),
{
    let mut i: usize = 0;
    while i < v.len()
        invariant
            0 <= i <= v@.len(),
            forall|j: int| 0 <= j < i ==> v@[j] != x,
        decreases v@.len() - i,
    {
        if v[i] == x {
            assert(v@[i as int] == x);
            return true;
        }
        i = i + 1;
    }
    false
}

/// Whether some element of `succ` lies outside `body`.
fn leaves_exec(succ: &[u32], body: &[u32]) -> (r: bool)
    ensures
        r == leaves(succ@, body@),
{
    let mut j: usize = 0;
    while j < succ.len()
        invariant
            0 <= j <= succ@.len(),
            forall|i: int| 0 <= i < j ==> body@.contains(#[trigger] succ@[i]),
        decreases succ@.len() - j,
    {
        if !list_contains(body, succ[j]) {
            return true;
        }
        j = j + 1;
    }
    false
}

/// The blocks of a loop body with a successor outside the body.
fn find_exit_blocks(cfg: &CFG, body: &[BlockId]) -> (exits: Vec<BlockId>)
    requires
        cfg.wf(),
    ensures
        exits@ == exits_upto(cfg, body@, body@.len() as int),
{
    let mut exits: Vec<u32> = Vec::new();
    let mut k: usize = 0;
    while k < body.len()
        invariant
            cfg.wf(),
            0 <= k <= body@.len(),
            exits@ == exits_upto(cfg, body@, k as int),
        decreases body@.len() - k,
    {
        let ghost before = exits@;
        match cfg.block(body[k]) {
            Some(b) => {
                proof {
                    assert(block_of(cfg, body@[k as int]) == Some(b@));
                }
                if leaves_exec(b.successors.as_slice(), body) {
                    exits.push(body[k]);
                }
            },
            None => {},
        }
        assert(exits@ =~= exits_upto(cfg, body@, k + 1));
        k = k + 1;
    }
    exits
}

/// The kind of a loop: a header with two successors, one of them outside the
/// body, makes a `while` loop; otherwise a tail with two successors makes a
/// `do`-`while` loop; otherwise the loop has no exit that was found.
pub open spec fn loop_kind(cfg: &CFG, header: u32, tail: u32, body: Seq<u32>) -> LoopKind {
    if block_of(cfg, header) is Some && block_of(cfg, header)->0.successors.len() == 2
        && leaves(block_of(cfg, header)->0.successors, body) {
        LoopKind::While
    } else if block_of(cfg, tail) is Some && block_of(cfg, tail)->0.successors.len() == 2 {
        LoopKind::DoWhile
    } else {
        LoopKind::Infinite
    }
}

/// The kind of a loop.
fn determine_loop_kind(cfg: &CFG, header: BlockId, tail: BlockId, body: &[BlockId]) -> (k: LoopKind)
    requires
        cfg.wf(),
    ensures
        k == loop_kind(cfg, header, tail, body@),
{
    match cfg.block(header) {
        Some(h) => {
            proof {
                assert(block_of(cfg, header) == Some(h@));
            }
            if h.successors.len() == 2 && leaves_exec(h.successors.as_slice(), body) {
                return LoopKind::While;
            }
        },
        None => {},
    }
    match cfg.block(tail) {
        Some(t) => {
            proof {
                assert(block_of(cfg, tail) == Some(t@));
            }
            if t.successors.len() == 2 {
                return LoopKind::DoWhile;
            }
        },
        None => {},
    }
    LoopKind::Infinite
}

/// Whether `a` dominates `b` by a dominator map.
pub open spec fn dominates_in(m: Map<u32, u32>, a: u32, b: u32) -> bool {
    a == b || chain_reaches(m, a, b, WALK_LIMIT as nat)
}

/// The back edges among the first `j` successors of block `b`: those whose
/// target dominates `b`, as (tail, header).
pub open spec fn block_back_edges(b: BasicBlockView, m: Map<u32, u32>, j: int) -> Seq<(u32, u32)>
    decreases j,
{
    if j <= 0 || j > b.successors.len() {
        Seq::empty()
    } else {
        block_back_edges(b, m, j - 1) + if dominates_in(m, b.successors[j - 1], b.id) {
            seq![(b.id, b.successors[j - 1])]
        } else {
            Seq::empty()
        }
    }
}

/// The back edges of the first `k` blocks, in block order.
pub open spec fn back_edges_upto(bs: Seq<BasicBlockView>, m: Map<u32, u32>, k: int) -> Seq<(u32, u32)>
    decreases k,
{
    if k <= 0 {
        Seq::empty()
    } else {
        back_edges_upto(bs, m, k - 1) + block_back_edges(bs[k - 1], m, bs[k - 1].successors.len() as int)
    }
}

/// The loop of a back edge from `tail` to `header`.
pub open spec fn loop_of(cfg: &CFG, header: u32, tail: u32, info: LoopInfoView) -> bool {
    &&& info.header == header
    &&& strictly_increasing(info.body)
    &&& forall|x: u32| info.body.contains(x) <==> in_natural_loop(cfg, header, tail, x)
    &&& info.back_edges == seq![(tail, header)]
    &&& info.kind == loop_kind(cfg, header, tail, info.body)
    &&& info.exit_blocks == exits_upto(cfg, info.body, info.body.len() as int)
}

/// Detect all natural loops in a CFG: one per back edge, an edge whose target
/// dominates its source, in the order of the blocks and their successors.
pub fn detect_loops(cfg: &CFG, dom_tree: &DominatorTree) -> (loops: Vec<LoopInfo>)
    requires
        cfg.wf(),
    ensures
        loops@.len() == back_edges_upto(cfg.block_list(), dom_tree.idom_map(), cfg.block_list().len() as int).len(),
        forall|i: int| 0 <= i < loops@.len() ==> loop_of(
            cfg,
            back_edges_upto(cfg.block_list(), dom_tree.idom_map(), cfg.block_list().len() as int)[i].1,
            back_edges_upto(cfg.block_list(), dom_tree.idom_map(), cfg.block_list().len() as int)[i].0,
            (#[trigger] loops@[i])@,
        ),
{
    let ghost bs = cfg.block_list();
    let ghost m = dom_tree.idom_map();
    let mut back_edges: Vec<(u32, u32)> = Vec::new();
    let n = graph_node_count(&cfg.graph);
    let mut p: usize = 0;
    while p < n
        invariant
            bs == cfg.block_list(),
            m == dom_tree.idom_map(),
            n == bs.len(),
            0 <= p <= n,
            back_edges@ == back_edges_upto(bs, m, p as int),
        decreases n - p,
    {
        let block = graph_node(&cfg.graph, p);
        proof {
            assert(bs[p as int] == block@);
        }
        let ghost start = back_edges@;
        let mut j: usize = 0;
        while j < block.successors.len()
            invariant
                m == dom_tree.idom_map(),
                0 <= j <= block.successors@.len(),
                back_edges@ == start + block_back_edges(block@, m, j as int),
            decreases block.successors@.len() - j,
        {
            let succ = block.successors[j];
            if dom_tree.dominates(succ, block.id) {
                back_edges.push((block.id, succ));
            }
            assert(back_edges@ =~= start + block_back_edges(block@, m, j + 1));
            j = j + 1;
        }
        p = p + 1;
    }
    let mut loops: Vec<LoopInfo> = Vec::new();
    let mut i: usize = 0;
    while i < back_edges.len()
        invariant
            cfg.wf(),
            back_edges@ == back_edges_upto(bs, m, bs.len() as int),
            bs == cfg.block_list(),
            m == dom_tree.idom_map(),
            0 <= i <= back_edges@.len(),
            loops@.len() == i,
            forall|q: int| 0 <= q < i ==> loop_of(cfg, back_edges@[q].1, back_edges@[q].0, (#[trigger] loops@[q])@),
        decreases back_edges@.len() - i,
    {
        let (tail, header) = back_edges[i];
        let body = compute_loop_body(cfg, header, tail);
        let exit_blocks = find_exit_blocks(cfg, body.as_slice());
        let kind = determine_loop_kind(cfg, header, tail, body.as_slice());
        let mut be: Vec<(u32, u32)> = Vec::new();
        be.push((tail, header));
        assert(be@ =~= seq![(tail, header)]);
        loops.push(LoopInfo { header, body, back_edges: be, kind, exit_blocks });
        i = i + 1;
    }
    loops
}


/// The kind of each loop found follows its exits: a header with a
/// conditional branch that leaves the body makes a `while` loop; failing
/// that, a tail that ends in a conditional branch (two successors) makes a
/// `do`-`while` loop; a loop is called infinite only where neither holds.
/// Conversely a `while` loop's header has a successor outside the body, and a
/// `do`-`while` loop's tail has two successors.
pub proof fn law_loop_kind(cfg: &CFG, header: u32, tail: u32, info: LoopInfoView)
    requires
        loop_of(cfg, header, tail, info),
    ensures
        ({
            let h = block_of(cfg, header);
            let t = block_of(cfg, tail);
            let header_exits = h is Some && h->0.successors.len() == 2 && leaves(h->0.successors, info.body);
            let tail_conditional = t is Some && t->0.successors.len() == 2;
            &&& header_exits ==> info.kind == LoopKind::While
            &&& !header_exits && tail_conditional ==> info.kind == LoopKind::DoWhile
            &&& info.kind == LoopKind::Infinite ==> !header_exits && !tail_conditional
            &&& info.kind == LoopKind::While ==> h is Some && leaves(h->0.successors, info.body)
            &&& info.kind == LoopKind::DoWhile ==> tail_conditional
        }),
{
}

} // verus!
