//! Dominator trees and dominance frontiers of control-flow graphs.

use vstd::prelude::*;
use vstd::set_lib::{lemma_int_range, lemma_len_subset, set_int_range};
use ahash::AHashMap;
use petgraph::algo::dominators::simple_fast;
use petgraph::graph::NodeIndex;
use crate::lifter::ir::BlockId;
use super::cfg::{CFG, Edge, BasicBlockView, block_ids, copy_ids};
use super::digraph::{CfgGraph, graph_nodes, graph_edges, graph_node, graph_node_count};

verus! {

/// The source and target of each edge.
pub open spec fn edge_pairs(es: Seq<Edge>) -> Seq<(usize, usize)> {
    es.map_values(|e: Edge| (e.0, e.1))
}

/// The edges of a control-flow graph, as pairs of node positions.
pub open spec fn cfg_edges(cfg: &CFG) -> Seq<(usize, usize)> {
    edge_pairs(graph_edges(cfg.graph))
}

/// The immediate dominator of each block of a control-flow graph, by
/// position, with the entry block as the root.
pub open spec fn cfg_idoms(cfg: &CFG) -> Seq<Option<usize>> {
    simple_fast_idoms(graph_nodes(cfg.graph).len(), cfg_edges(cfg), cfg.entry)
}

/// `p` is a walk along `edges`: each step from one node to the next follows an edge.
pub open spec fn is_walk(edges: Seq<(usize, usize)>, p: Seq<usize>) -> bool {
    p.len() > 0 && forall|k: int| 0 <= k < p.len() - 1 ==> edges.contains((p[k], #[trigger] p[k + 1]))
}

/// Some walk along `edges` leads from `root` to `n`.
pub open spec fn walk_exists(edges: Seq<(usize, usize)>, root: usize, n: usize) -> bool {
    exists|p: Seq<usize>| is_walk(edges, p) && p[0] == root && p.last() == n
}

/// `d` lies on every walk along `edges` from `root` to `n`: `d` dominates `n`.
pub open spec fn on_every_walk(edges: Seq<(usize, usize)>, root: usize, d: usize, n: usize) -> bool {
    forall|p: Seq<usize>| is_walk(edges, p) && p[0] == root && p.last() == n ==> #[trigger] p.contains(d)
}

/// The table `doms` holds, by position, the immediate dominator of each node
/// of a graph with these edges and this root: the root and the nodes that
/// the root does not reach have none; every other node has one, another node
/// of the graph that lies on every walk from the root to it; and every other
/// node that lies on every such walk lies on every walk to the immediate
/// dominator too, which makes it the nearest of them.
pub open spec fn immediate_dominance(edges: Seq<(usize, usize)>, root: usize, doms: Seq<Option<usize>>) -> bool {
    &&& root < doms.len()
    &&& doms[root as int] is None
    &&& forall|i: int| 0 <= i < doms.len() && (#[trigger] doms[i]) is Some ==>
            doms[i].unwrap() < doms.len() && doms[i].unwrap() != i
    &&& forall|i: int| 0 <= i < doms.len() ==> ((#[trigger] doms[i]) is Some <==> (i != root
            && walk_exists(edges, root, i as usize)))
    &&& forall|i: int| 0 <= i < doms.len() && (#[trigger] doms[i]) is Some ==>
            on_every_walk(edges, root, doms[i].unwrap(), i as usize)
    &&& forall|i: int, d: usize|
            #![trigger doms[i], on_every_walk(edges, root, d, i as usize)]
            0 <= i < doms.len() && doms[i] is Some && d != i && on_every_walk(edges, root, d, i as usize)
            ==> on_every_walk(edges, root, d, doms[i].unwrap())
}

/// The immediate dominator of each node, by position, that petgraph's
/// `simple_fast` finds in a graph with `n` nodes, these edges and this root.
pub uninterp spec fn simple_fast_idoms(n: nat, edges: Seq<(usize, usize)>, root: usize) -> Seq<Option<usize>>;

/// `simple_fast` followed by `immediate_dominator` for every node: each node's
/// immediate dominator, by position. The documentation defines the immediate
/// dominator as the strict dominator of a node that no other strict dominator
/// lies below, and `immediate_dominator` gives none for the root and for the
/// nodes that the root does not reach; `immediate_dominance` states exactly
/// that. A root or an edge endpoint that is not a node makes the search
/// panic, hence the bounds.
#[verifier::external_body]
fn immediate_dominators(g: &CfgGraph, root: usize) -> (idoms: Vec<Option<usize>>)
    requires
        root < graph_nodes(*g).len(),
        forall|e: int| 0 <= e < graph_edges(*g).len() ==>
            (#[trigger] graph_edges(*g)[e]).0 < graph_nodes(*g).len()
            && graph_edges(*g)[e].1 < graph_nodes(*g).len(),
    ensures
        idoms@ == simple_fast_idoms(graph_nodes(*g).len(), edge_pairs(graph_edges(*g)), root),
        idoms@.len() == graph_nodes(*g).len(),
        immediate_dominance(edge_pairs(graph_edges(*g)), root, idoms@),
{
    let doms = simple_fast(g, NodeIndex::new(root));
    (0..g.node_count()).map(|i| doms.immediate_dominator(NodeIndex::new(i)).map(|d| d.index())).collect()
}

/// What a map from block ids to their immediate dominators holds.
pub uninterp spec fn idom_contents(m: AHashMap<u32, u32>) -> Map<u32, u32>;

/// What a map from block ids to their dominance frontiers holds.
pub uninterp spec fn frontier_contents(m: AHashMap<u32, Vec<u32>>) -> Map<u32, Seq<u32>>;

/// `AHashMap::new` for immediate dominators: an empty map.
#[verifier::external_body]
fn idom_new() -> (m: AHashMap<u32, u32>)
    ensures
        idom_contents(m).is_empty(),
{
    AHashMap::new()
}

/// `AHashMap::insert` for immediate dominators: the key now maps to the value.
#[verifier::external_body]
fn idom_insert(m: &mut AHashMap<u32, u32>, k: u32, v: u32)
    ensures
        idom_contents(*final(m)) == idom_contents(*old(m)).insert(k, v),
{
    m.insert(k, v);
}

/// `AHashMap::get` for immediate dominators, with the value copied out.
#[verifier::external_body]
fn idom_get(m: &AHashMap<u32, u32>, k: u32) -> (r: Option<u32>)
    ensures
        r == (if idom_contents(*m).contains_key(k) { Some(idom_contents(*m)[k]) } else { None }),
{
    m.get(&k).copied()
}

/// `AHashMap::new` for frontiers: an empty map.
#[verifier::external_body]
fn frontier_new() -> (m: AHashMap<u32, Vec<u32>>)
    ensures
        frontier_contents(m).is_empty(),
{
    AHashMap::new()
}

/// `AHashMap::insert` for frontiers: the key now maps to the list.
#[verifier::external_body]
fn frontier_insert(m: &mut AHashMap<u32, Vec<u32>>, k: u32, v: Vec<u32>)
    ensures
        frontier_contents(*final(m)) == frontier_contents(*old(m)).insert(k, v@),
{
    m.insert(k, v);
}

/// `AHashMap::get` for frontiers: a reference to the list of the key, if any.
#[verifier::external_body]
fn frontier_get(m: &AHashMap<u32, Vec<u32>>, k: u32) -> (r: Option<&Vec<u32>>)
    ensures
        match r {
            Some(v) => frontier_contents(*m).contains_key(k) && v@ == frontier_contents(*m)[k],
            None => !frontier_contents(*m).contains_key(k),
        },
{
    m.get(&k)
}

/// The longest walk up a dominator chain: no chain in a graph with 32-bit node
/// indices is longer.
pub const WALK_LIMIT: u64 = 0xffff_ffff;

/// The list a frontier map holds for a key, or the empty list.
pub open spec fn frontier_of(df: Map<u32, Seq<u32>>, k: u32) -> Seq<u32> {
    if df.contains_key(k) { df[k] } else { Seq::empty() }
}

/// The immediate-dominator map after recording the first `k` nodes, by position.
pub open spec fn idom_upto(ids: Seq<u32>, doms: Seq<Option<usize>>, k: int) -> Map<u32, u32>
    decreases k,
{
    if k <= 0 {
        Map::empty()
    } else {
        let m = idom_upto(ids, doms, k - 1);
        match doms[k - 1] {
            Some(d) => m.insert(ids[k - 1], ids[d as int]),
            None => m,
        }
    }
}

/// Whether the walk up the dominator chain from `cur` meets `a` within `fuel`
/// steps; it stops at a block without a dominator or at one that is its own.
pub open spec fn chain_reaches(m: Map<u32, u32>, a: u32, cur: u32, fuel: nat) -> bool
    decreases fuel,
{
    if fuel == 0 || !m.contains_key(cur) {
        false
    } else if m[cur] == a {
        true
    } else if m[cur] == cur {
        false
    } else {
        chain_reaches(m, a, m[cur], (fuel - 1) as nat)
    }
}

/// The frontier map after the walk from `runner` up to `stop` adds `b` to the
/// frontier of each block it passes, for at most `fuel` steps.
pub open spec fn runner_walk(
    df: Map<u32, Seq<u32>>,
    idom: Map<u32, u32>,
    stop: u32,
    b: u32,
    runner: u32,
    fuel: nat,
) -> Map<u32, Seq<u32>>
    decreases fuel,
{
    if fuel == 0 || runner == stop {
        df
    } else {
        let df2 = df.insert(runner, frontier_of(df, runner).push(b));
        if idom.contains_key(runner) && idom[runner] != runner {
            runner_walk(df2, idom, stop, b, idom[runner], (fuel - 1) as nat)
        } else {
            df2
        }
    }
}

/// Where the walks of a block stop: at its immediate dominator, or at itself.
pub open spec fn walk_stop(idom: Map<u32, u32>, b: u32) -> u32 {
    if idom.contains_key(b) { idom[b] } else { b }
}

/// The frontier map after the walks from the first `k` predecessors of `b`.
pub open spec fn pred_walks(df: Map<u32, Seq<u32>>, idom: Map<u32, u32>, b: BasicBlockView, k: int) -> Map<u32, Seq<u32>>
    decreases k,
{
    if k <= 0 {
        df
    } else {
        runner_walk(
            pred_walks(df, idom, b, k - 1),
            idom,
            walk_stop(idom, b.id),
            b.id,
            b.predecessors[k - 1],
            WALK_LIMIT as nat,
        )
    }
}

/// The frontier map after the first `k` blocks: a block with two or more
/// predecessors is added to the frontier of the blocks on the dominator chains
/// from its predecessors up to its immediate dominator.
pub open spec fn frontier_upto(bs: Seq<BasicBlockView>, idom: Map<u32, u32>, k: int) -> Map<u32, Seq<u32>>
    decreases k,
{
    if k <= 0 {
        Map::empty()
    } else {
        let df = frontier_upto(bs, idom, k - 1);
        let b = bs[k - 1];
        if b.predecessors.len() >= 2 {
            pred_walks(df, idom, b, b.predecessors.len() as int)
        } else {
            df
        }
    }
}

/// Dominator tree for a CFG.
pub struct DominatorTree {
    idom: AHashMap<BlockId, BlockId>,
    dominance_frontier: AHashMap<BlockId, Vec<BlockId>>,
}

impl DominatorTree {
    /// The immediate dominator of each block id.
    pub closed spec fn idom_map(&self) -> Map<u32, u32> {
        idom_contents(self.idom)
    }

    /// The dominance frontier of each block id.
    pub closed spec fn frontier_map(&self) -> Map<u32, Seq<u32>> {
        frontier_contents(self.dominance_frontier)
    }
}

/// Adds `b` to the frontiers of the blocks on the chain from `runner` to `stop`.
fn walk_runner(
    df: &mut AHashMap<u32, Vec<u32>>,
    idom: &AHashMap<u32, u32>,
    stop: u32,
    b: u32,
    runner: u32,
)
    ensures
        frontier_contents(*final(df)) == runner_walk(
            frontier_contents(*old(df)),
            idom_contents(*idom),
            stop,
            b,
            runner,
            WALK_LIMIT as nat,
        ),
{
    let ghost im = idom_contents(*idom);
    let ghost target = runner_walk(frontier_contents(*df), im, stop, b, runner, WALK_LIMIT as nat);
    let mut runner = runner;
    let mut fuel: u64 = WALK_LIMIT;
    while fuel > 0 && runner != stop
        invariant_except_break
            runner_walk(frontier_contents(*df), im, stop, b, runner, fuel as nat) == target,
        invariant
            im == idom_contents(*idom),
        ensures
            frontier_contents(*df) == target,
        decreases fuel,
    {
        let ghost before = frontier_contents(*df);
        let mut list: Vec<u32> = match frontier_get(df, runner) {
            Some(v) => copy_ids(v),
            None => Vec::new(),
        };
        list.push(b);
        proof {
            assert(list@ == frontier_of(before, runner).push(b));
        }
        frontier_insert(df, runner, list);
        match idom_get(idom, runner) {
            Some(dom) => {
                if dom != runner {
                    runner = dom;
                    fuel = fuel - 1;
                } else {
                    break;
                }
            },
            None => {
                break;
            },
        }
    }
}

} // verus!

verus! {

/// The dominance frontier of every block, given the immediate dominators.
fn compute_dominance_frontier(cfg: &CFG, idom: &AHashMap<u32, u32>) -> (df: AHashMap<u32, Vec<u32>>)
    ensures
        frontier_contents(df) == frontier_upto(cfg.block_list(), idom_contents(*idom), cfg.block_list().len() as int),
{
    let ghost bs = cfg.block_list();
    let ghost im = idom_contents(*idom);
    let mut df = frontier_new();
    let n = graph_node_count(&cfg.graph);
    let mut p: usize = 0;
    while p < n
        invariant
            bs == cfg.block_list(),
            im == idom_contents(*idom),
            n == bs.len(),
            0 <= p <= n,
            frontier_contents(df) == frontier_upto(bs, im, p as int),
        decreases n - p,
    {
        let block = graph_node(&cfg.graph, p);
        proof {
            assert(bs[p as int] == block@);
        }
        if block.predecessors.len() >= 2 {
            let stop = match idom_get(idom, block.id) {
                Some(d) => d,
                None => block.id,
            };
            let ghost start = frontier_contents(df);
            let mut k: usize = 0;
            while k < block.predecessors.len()
                invariant
                    im == idom_contents(*idom),
                    block@ == bs[p as int],
                    stop == walk_stop(im, block.id),
                    0 <= k <= block.predecessors@.len(),
                    frontier_contents(df) == pred_walks(start, im, block@, k as int),
                decreases block.predecessors@.len() - k,
            {
                walk_runner(&mut df, idom, stop, block.id, block.predecessors[k]);
                k = k + 1;
            }
        }
        p = p + 1;
    }
    df
}

impl DominatorTree {
    /// Compute the dominator tree for a CFG with petgraph's `simple_fast`,
    /// rooted at the entry block. The tree records, by block id, the
    /// immediate dominators that `cfg_idoms` holds by position. Where the
    /// block ids are distinct, the chain of immediate dominators above a
    /// block meets exactly the blocks that lie on every path from the entry
    /// to it (for a block that the entry reaches), so that what `dominates`
    /// answers is dominance.
    pub fn compute(cfg: &CFG) -> (dt: Self)
        requires
            cfg.wf(),
            cfg.entry < graph_nodes(cfg.graph).len(),
        ensures
            dt.idom_map() == idom_upto(block_ids(cfg.block_list()), cfg_idoms(cfg), cfg.block_list().len() as int),
            dt.frontier_map() == frontier_upto(cfg.block_list(), dt.idom_map(), cfg.block_list().len() as int),
            cfg_idoms(cfg).len() == cfg.block_list().len(),
            immediate_dominance(cfg_edges(cfg), cfg.entry, cfg_idoms(cfg)),
            block_ids(cfg.block_list()).no_duplicates() ==> forall|pa: int, pb: int, fuel: nat|
                0 <= pa < cfg.block_list().len() && 0 <= pb < cfg.block_list().len()
                && #[trigger] chain_reaches(dt.idom_map(), block_ids(cfg.block_list())[pa], block_ids(cfg.block_list())[pb], fuel)
                ==> on_every_walk(cfg_edges(cfg), cfg.entry, pa as usize, pb as usize),
            block_ids(cfg.block_list()).no_duplicates() && cfg.block_list().len() <= WALK_LIMIT
                ==> forall|pa: int, pb: int|
                0 <= pa < cfg.block_list().len() && 0 <= pb < cfg.block_list().len() && pa != pb
                && walk_exists(cfg_edges(cfg), cfg.entry, pb as usize)
                && #[trigger] on_every_walk(cfg_edges(cfg), cfg.entry, pa as usize, pb as usize)
                ==> chain_reaches(dt.idom_map(), block_ids(cfg.block_list())[pa], block_ids(cfg.block_list())[pb], WALK_LIMIT as nat),
    {
        let ghost bs = cfg.block_list();
        proof {
            assert forall|e: int| 0 <= e < graph_edges(cfg.graph).len() implies
                (#[trigger] graph_edges(cfg.graph)[e]).0 < graph_nodes(cfg.graph).len()
                && graph_edges(cfg.graph)[e].1 < graph_nodes(cfg.graph).len() by {
                assert(cfg.edge_list()[e] == graph_edges(cfg.graph)[e]);
            }
        }
        let doms = immediate_dominators(&cfg.graph, cfg.entry);
        let mut idom = idom_new();
        let n = graph_node_count(&cfg.graph);
        let mut p: usize = 0;
        while p < n
            invariant
                bs == cfg.block_list(),
                n == bs.len(),
                doms@.len() == n,
                forall|i: int| 0 <= i < doms@.len() && (#[trigger] doms@[i]) is Some ==>
                    doms@[i].unwrap() < doms@.len(),
                0 <= p <= n,
                idom_contents(idom) == idom_upto(block_ids(bs), doms@, p as int),
            decreases n - p,
        {
            if let Some(d) = doms[p] {
                let a = graph_node(&cfg.graph, p).id;
                let b = graph_node(&cfg.graph, d).id;
                proof {
                    assert(doms@[p as int] is Some);
                    assert(block_ids(bs)[p as int] == a);
                    assert(block_ids(bs)[d as int] == b);
                }
                idom_insert(&mut idom, a, b);
            }
            p = p + 1;
        }
        let dominance_frontier = compute_dominance_frontier(cfg, &idom);
        proof {
            let es = cfg_edges(cfg);
            let ids = block_ids(bs);
            if ids.no_duplicates() {
                assert forall|pa: int, pb: int, fuel: nat|
                    0 <= pa < bs.len() && 0 <= pb < bs.len()
                    && #[trigger] chain_reaches(idom_contents(idom), ids[pa], ids[pb], fuel)
                    implies on_every_walk(es, cfg.entry, pa as usize, pb as usize) by {
                    lemma_chain_dominates(es, cfg.entry, ids, doms@, pa, pb, fuel);
                }
                if bs.len() <= WALK_LIMIT {
                    assert forall|pa: int, pb: int|
                        0 <= pa < bs.len() && 0 <= pb < bs.len() && pa != pb
                        && walk_exists(es, cfg.entry, pb as usize)
                        && #[trigger] on_every_walk(es, cfg.entry, pa as usize, pb as usize)
                        implies chain_reaches(idom_contents(idom), ids[pa], ids[pb], WALK_LIMIT as nat) by {
                        let w = choose|w: Seq<usize>| is_walk(es, w) && w[0] == cfg.entry && w.last() == pb as usize;
                        let sw = lemma_simple_walk(es, w);
                        lemma_walk_nodes(es, sw, bs.len() as int);
                        lemma_simple_walk_short(sw, bs.len() as int);
                        lemma_chain_complete(es, cfg.entry, ids, doms@, pa, sw, WALK_LIMIT as nat);
                    }
                }
            }
        }
        DominatorTree { idom, dominance_frontier }
    }

    /// The immediate dominator of a block.
    pub fn idom(&self, block: BlockId) -> (r: Option<BlockId>)
        ensures
            r == (if self.idom_map().contains_key(block) { Some(self.idom_map()[block]) } else { None }),
    {
        idom_get(&self.idom, block)
    }

    /// Whether block `a` dominates block `b`: `a` is `b`, or `a` lies on the
    /// chain of immediate dominators above `b`.
    pub fn dominates(&self, a: BlockId, b: BlockId) -> (r: bool)
        ensures
            r == (a == b || chain_reaches(self.idom_map(), a, b, WALK_LIMIT as nat)),
    {
        if a == b {
            return true;
        }
        let ghost m = self.idom_map();
        let mut current = b;
        let mut fuel: u64 = WALK_LIMIT;
        while fuel > 0
            invariant
                a != b,
                m == self.idom_map(),
                chain_reaches(m, a, current, fuel as nat) == chain_reaches(m, a, b, WALK_LIMIT as nat),
            decreases fuel,
        {
            match idom_get(&self.idom, current) {
                Some(dom) => {
                    if dom == a {
                        return true;
                    }
                    if dom == current {
                        return false;
                    }
                    current = dom;
                    fuel = fuel - 1;
                },
                None => {
                    return false;
                },
            }
        }
        false
    }

    /// The dominance frontier of a block: empty where it has none.
    pub fn frontier(&self, block: BlockId) -> (r: &[BlockId])
        ensures
            r@ == frontier_of(self.frontier_map(), block),
    {
        match frontier_get(&self.dominance_frontier, block) {
            Some(v) => v.as_slice(),
            None => &[],
        }
    }
}

/// Dominance is transitive: what lies on every path to `d` lies on every
/// path to a block that `d` dominates.
proof fn lemma_dominance_transitive(edges: Seq<(usize, usize)>, root: usize, a: usize, d: usize, c: usize)
    requires
        on_every_walk(edges, root, a, d),
        on_every_walk(edges, root, d, c),
    ensures
        on_every_walk(edges, root, a, c),
{
    assert forall|p: Seq<usize>| is_walk(edges, p) && p[0] == root && p.last() == c implies #[trigger] p.contains(a) by {
        assert(p.contains(d));
        let k = choose|k: int| 0 <= k < p.len() && p[k] == d;
        let q = p.take(k + 1);
        assert forall|j: int| 0 <= j < q.len() - 1 implies edges.contains((q[j], #[trigger] q[j + 1])) by {
            assert(q[j] == p[j]);
            assert(q[j + 1] == p[j + 1]);
        }
        assert(q[0] == root && q.last() == d);
        assert(q.contains(a));
        let j = choose|j: int| 0 <= j < q.len() && q[j] == a;
        assert(p[j] == a);
    }
}

/// With distinct ids, the map recorded from the first `k` positions holds
/// the id at `p` exactly when `p < k` has an immediate dominator, and maps
/// it to that dominator's id.
proof fn lemma_idom_upto_at(ids: Seq<u32>, doms: Seq<Option<usize>>, k: int, p: int)
    requires
        ids.no_duplicates(),
        0 <= k <= ids.len(),
        0 <= p < ids.len(),
    ensures
        idom_upto(ids, doms, k).contains_key(ids[p]) <==> (p < k && doms[p] is Some),
        p < k && doms[p] is Some ==> idom_upto(ids, doms, k)[ids[p]] == ids[doms[p]->0 as int],
    decreases k,
{
    if k > 0 {
        lemma_idom_upto_at(ids, doms, k - 1, p);
        if p != k - 1 {
            assert(ids[p] != ids[k - 1]);
        }
    }
}

/// Where the chain of immediate dominators from the block at `pc` meets the
/// block at `pa`, `pa` lies on every path from the root to `pc`.
proof fn lemma_chain_dominates(
    edges: Seq<(usize, usize)>,
    root: usize,
    ids: Seq<u32>,
    doms: Seq<Option<usize>>,
    pa: int,
    pc: int,
    fuel: nat,
)
    requires
        ids.no_duplicates(),
        doms.len() == ids.len(),
        0 <= pa < ids.len(),
        0 <= pc < ids.len(),
        immediate_dominance(edges, root, doms),
        chain_reaches(idom_upto(ids, doms, ids.len() as int), ids[pa], ids[pc], fuel),
    ensures
        on_every_walk(edges, root, pa as usize, pc as usize),
    decreases fuel,
{
    let m = idom_upto(ids, doms, ids.len() as int);
    lemma_idom_upto_at(ids, doms, ids.len() as int, pc);
    let d = doms[pc]->0 as int;
    assert(doms[pc] is Some);
    assert(m[ids[pc]] == ids[d]);
    if ids[d] == ids[pa] {
        assert(d == pa);
    } else {
        lemma_chain_dominates(edges, root, ids, doms, pa, d, (fuel - 1) as nat);
        lemma_dominance_transitive(edges, root, pa as usize, d as usize, pc as usize);
    }
}

/// Cutting the loops out of a walk leaves a walk between the same two nodes
/// that visits no node twice.
proof fn lemma_simple_walk(edges: Seq<(usize, usize)>, w: Seq<usize>) -> (s: Seq<usize>)
    requires
        is_walk(edges, w),
    ensures
        is_walk(edges, s),
        s[0] == w[0],
        s.last() == w.last(),
        s.no_duplicates(),
    decreases w.len(),
{
    if w.no_duplicates() {
        w
    } else {
        let (i, j) = choose|i: int, j: int| 0 <= i < w.len() && 0 <= j < w.len() && i != j && w[i] == w[j];
        let a = if i < j { i } else { j };
        let b = if i < j { j } else { i };
        let v = w.subrange(0, a + 1) + w.subrange(b + 1, w.len() as int);
        assert forall|k: int| 0 <= k < v.len() - 1 implies edges.contains((v[k], #[trigger] v[k + 1])) by {
            if k < a {
                assert(v[k] == w[k] && v[k + 1] == w[k + 1]);
                assert(edges.contains((w[k], w[k + 1])));
            } else if k == a {
                assert(v[k] == w[b] && v[k + 1] == w[b + 1]);
                assert(edges.contains((w[b], w[b + 1])));
            } else {
                let c = k - a + b;
                assert(v[k] == w[c] && v[k + 1] == w[c + 1]);
                assert(edges.contains((w[c], w[c + 1])));
            }
        }
        assert(v[0] == w[0]);
        assert(v.last() == w.last());
        lemma_simple_walk(edges, v)
    }
}

/// A walk from a node of the graph stays among its nodes.
proof fn lemma_walk_nodes(edges: Seq<(usize, usize)>, w: Seq<usize>, n: int)
    requires
        is_walk(edges, w),
        (w[0] as int) < n,
        forall|e: int| 0 <= e < edges.len() ==> (#[trigger] edges[e]).0 < n && edges[e].1 < n,
    ensures
        forall|k: int| 0 <= k < w.len() ==> (#[trigger] w[k] as int) < n,
{
    assert forall|k: int| 0 <= k < w.len() implies (#[trigger] w[k] as int) < n by {
        if k > 0 {
            assert(edges.contains((w[k - 1], w[k - 1 + 1])));
            let e = choose|e: int| 0 <= e < edges.len() && edges[e] == (w[k - 1], w[k]);
            assert(edges[e].1 < n);
        }
    }
}

/// A walk that visits no node twice among `n` nodes has at most `n` of them.
proof fn lemma_simple_walk_short(w: Seq<usize>, n: int)
    requires
        w.no_duplicates(),
        0 <= n,
        forall|k: int| 0 <= k < w.len() ==> (#[trigger] w[k] as int) < n,
    ensures
        w.len() <= n,
{
    let t = w.map_values(|x: usize| x as int);
    assert forall|i: int, j: int| 0 <= i < t.len() && 0 <= j < t.len() && i != j implies t[i] != t[j] by {
        assert(w[i] != w[j]);
    }
    assert(t.no_duplicates());
    t.unique_seq_to_set();
    assert forall|x: int| t.to_set().contains(x) implies set_int_range(0, n).contains(x) by {
        assert(t.contains(x));
        let k = choose|k: int| 0 <= k < t.len() && t[k] == x;
        assert(w[k] as int == x);
    }
    lemma_int_range(0, n);
    lemma_len_subset(t.to_set(), set_int_range(0, n));
}

/// Where the block at `pa` lies on every path from the root to the block at
/// the end of the walk `w`, and is not that block, the chain of immediate
/// dominators above the latter meets `pa` within as many steps as the walk
/// has edges.
proof fn lemma_chain_complete(
    edges: Seq<(usize, usize)>,
    root: usize,
    ids: Seq<u32>,
    doms: Seq<Option<usize>>,
    pa: int,
    w: Seq<usize>,
    fuel: nat,
)
    requires
        ids.no_duplicates(),
        doms.len() == ids.len(),
        immediate_dominance(edges, root, doms),
        ids.len() <= usize::MAX,
        0 <= pa < ids.len(),
        is_walk(edges, w),
        w[0] == root,
        (w.last() as int) < ids.len(),
        w.last() as int != pa,
        on_every_walk(edges, root, pa as usize, w.last()),
        fuel + 1 >= w.len(),
    ensures
        chain_reaches(idom_upto(ids, doms, ids.len() as int), ids[pa], ids[w.last() as int], fuel),
    decreases w.len(),
{
    let pc = w.last() as int;
    let m = idom_upto(ids, doms, ids.len() as int);
    assert(on_every_walk(edges, root, pa as usize, pc as usize));
    if pc == root as int {
        let one = seq![root];
        assert(is_walk(edges, one));
        assert(one[0] == root && one.last() == pc as usize);
        assert(one.contains(pa as usize));
        assert(one[0] == pa as usize);
        assert(false);
    }
    assert(w.len() >= 2);
    assert(walk_exists(edges, root, pc as usize));
    assert(doms[pc] is Some);
    let d = doms[pc]->0 as int;
    lemma_idom_upto_at(ids, doms, ids.len() as int, pc);
    assert(m[ids[pc]] == ids[d]);
    if d != pa {
        assert(on_every_walk(edges, root, pa as usize, d as usize));
        assert(on_every_walk(edges, root, d as usize, pc as usize));
        assert(w.contains(d as usize));
        let j = choose|j: int| 0 <= j < w.len() && w[j] == d as usize;
        assert(j != w.len() - 1);
        let v = w.take(j + 1);
        assert forall|k: int| 0 <= k < v.len() - 1 implies edges.contains((v[k], #[trigger] v[k + 1])) by {
            assert(v[k] == w[k] && v[k + 1] == w[k + 1]);
        }
        assert(v[0] == root && v.last() == d as usize);
        assert(ids[d] != ids[pc]);
        assert(ids[d] != ids[pa]);
        lemma_chain_complete(edges, root, ids, doms, pa, v, (fuel - 1) as nat);
    }
}

} // verus!
