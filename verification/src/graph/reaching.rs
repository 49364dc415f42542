//! Reaching definitions for SSA renaming: the register each use reads once
//! every definition has its own version.

use vstd::prelude::*;
use ahash::AHashMap;
use crate::lifter::ir::{
    BlockId, IR, IRView, Reg, Operand, OperandView, Condition, ConditionView, CallKind, CallKindView, operands_view,
};
use super::cfg::{CFG, BasicBlock, BasicBlockView, block_index_contents, block_index_get, copy_ids};
use super::digraph::{graph_nodes, graph_edges, graph_node, graph_node_count, graph_set_node};
use super::dominators::{DominatorTree, WALK_LIMIT};
use super::ssa::{dest_of, with_instructions};

verus! {

/// The destinations of the instructions of each block, by position.
pub open spec fn dest_table(bs: Seq<BasicBlockView>) -> Seq<Seq<Option<Reg>>> {
    bs.map_values(|b: BasicBlockView| b.instructions.map_values(|i: IRView| dest_of(i)))
}

/// The model of a table of destinations.
pub open spec fn table_view(t: Seq<Vec<Option<Reg>>>) -> Seq<Seq<Option<Reg>>> {
    t.map_values(|v: Vec<Option<Reg>>| v@)
}

/// The position of the last instruction before `k` that writes register `r`.
pub open spec fn last_def(ds: Seq<Option<Reg>>, r: u16, k: int) -> Option<int>
    decreases k,
{
    if k <= 0 || k > ds.len() {
        None
    } else if ds[k - 1] == Some(Reg(r)) {
        Some(k - 1)
    } else {
        last_def(ds, r, k - 1)
    }
}

/// The register the renamed instruction at position `j` of block `p` writes,
/// or `r` where there is none.
pub open spec fn reg_at(d1: Seq<Seq<Option<Reg>>>, p: int, j: int, r: u16) -> Reg {
    if 0 <= p < d1.len() && 0 <= j < d1[p].len() && d1[p][j] is Some {
        d1[p][j]->0
    } else {
        Reg(r)
    }
}

/// The register that holds `r` at the end of block `b`: the version of its
/// last definition in `b`, else what holds it at the end of `b`'s immediate
/// dominator, walking up at most `fuel` blocks; `r` itself where nothing
/// defines it.
pub open spec fn out_reg(
    d0: Seq<Seq<Option<Reg>>>,
    d1: Seq<Seq<Option<Reg>>>,
    m: Map<u32, usize>,
    im: Map<u32, u32>,
    b: u32,
    r: u16,
    fuel: nat,
) -> Reg
    decreases fuel,
{
    if fuel == 0 || !m.contains_key(b) || m[b] as int >= d0.len() {
        Reg(r)
    } else {
        let p = m[b] as int;
        match last_def(d0[p], r, d0[p].len() as int) {
            Some(j) => reg_at(d1, p, j, r),
            None => if im.contains_key(b) && im[b] != b {
                out_reg(d0, d1, m, im, im[b], r, (fuel - 1) as nat)
            } else {
                Reg(r)
            },
        }
    }
}

/// The register that holds `r` just before instruction `k` of block `bid`
/// at position `p`: the version of the last definition before it in the
/// block, else what holds `r` at the end of the block's immediate dominator.
pub open spec fn in_reg(
    d0: Seq<Seq<Option<Reg>>>,
    d1: Seq<Seq<Option<Reg>>>,
    m: Map<u32, usize>,
    im: Map<u32, u32>,
    bid: u32,
    p: int,
    k: int,
    r: u16,
) -> Reg {
    let ds = if 0 <= p < d0.len() { d0[p] } else { Seq::empty() };
    match last_def(ds, r, k) {
        Some(j) => reg_at(d1, p, j, r),
        None => if im.contains_key(bid) && im[bid] != bid {
            out_reg(d0, d1, m, im, im[bid], r, WALK_LIMIT as nat)
        } else {
            Reg(r)
        },
    }
}

/// An operand with its registers read through `f`.
pub open spec fn operand_uses(op: OperandView, f: spec_fn(u16) -> Reg) -> OperandView {
    match op {
        OperandView::Reg(r) => OperandView::Reg(f(r.0)),
        OperandView::FieldAccess { base, offset, field_name } => OperandView::FieldAccess { base: f(base.0), offset, field_name },
        _ => op,
    }
}

/// A condition with its register read through `f`.
pub open spec fn condition_uses(c: ConditionView, f: spec_fn(u16) -> Reg) -> ConditionView {
    match c {
        ConditionView::True(r) => ConditionView::True(f(r.0)),
        ConditionView::False(r) => ConditionView::False(f(r.0)),
        ConditionView::TypeCheck(r, t) => ConditionView::TypeCheck(f(r.0), t),
        _ => c,
    }
}

/// An instruction with every register it reads replaced through `f`; what
/// it writes, and a phi's sources, stay.
pub open spec fn ir_uses(ir: IRView, f: spec_fn(u16) -> Reg) -> IRView {
    match ir {
        IRView::Assign(d, op) => IRView::Assign(d, operand_uses(op, f)),
        IRView::BinOp { dst, op, lhs, rhs } => IRView::BinOp { dst, op, lhs: operand_uses(lhs, f), rhs: operand_uses(rhs, f) },
        IRView::UnaryOp { dst, op, src } => IRView::UnaryOp { dst, op, src: operand_uses(src, f) },
        IRView::Call { dst, kind, args } => IRView::Call {
            dst,
            kind: match kind {
                CallKindView::Closure(r) => CallKindView::Closure(f(r.0)),
                _ => kind,
            },
            args: args.map_values(|a: OperandView| operand_uses(a, f)),
        },
        IRView::LoadField { dst, base, offset, field_name } => IRView::LoadField { dst, base: f(base.0), offset, field_name },
        IRView::StoreField { base, offset, value, field_name } => IRView::StoreField {
            base: f(base.0),
            offset,
            value: operand_uses(value, f),
            field_name,
        },
        IRView::Branch { condition, true_target, false_target } => IRView::Branch {
            condition: condition_uses(condition, f),
            true_target,
            false_target,
        },
        IRView::Return(v) => IRView::Return(match v {
            Some(o) => Some(operand_uses(o, f)),
            None => None,
        }),
        IRView::Throw(o) => IRView::Throw(operand_uses(o, f)),
        IRView::NullCheck(r) => IRView::NullCheck(f(r.0)),
        IRView::TypeCheck { src, target_type, is_cast } => IRView::TypeCheck { src: f(src.0), target_type, is_cast },
        IRView::Compare { lhs, rhs } => IRView::Compare { lhs: operand_uses(lhs, f), rhs: operand_uses(rhs, f) },
        _ => ir,
    }
}

/// How instruction `k` of block `bid` at position `p` reads each register.
pub open spec fn reach_fn(
    d0: Seq<Seq<Option<Reg>>>,
    d1: Seq<Seq<Option<Reg>>>,
    m: Map<u32, usize>,
    im: Map<u32, u32>,
    bid: u32,
    p: int,
    k: int,
) -> spec_fn(u16) -> Reg {
    |r: u16| in_reg(d0, d1, m, im, bid, p, k, r)
}

/// Instruction `k` of block `bid` at position `p` with its uses renamed: a
/// phi's source from a predecessor reads what holds the register at the end
/// of that predecessor; any other instruction reads what reaches it.
pub open spec fn use_renamed(
    ir: IRView,
    d0: Seq<Seq<Option<Reg>>>,
    d1: Seq<Seq<Option<Reg>>>,
    m: Map<u32, usize>,
    im: Map<u32, u32>,
    bid: u32,
    p: int,
    k: int,
) -> IRView {
    match ir {
        IRView::Phi { dst, sources } => IRView::Phi {
            dst,
            sources: sources.map_values(|s: (BlockId, Reg)| (s.0, out_reg(d0, d1, m, im, s.0, s.1.0, WALK_LIMIT as nat))),
        },
        _ => ir_uses(ir, reach_fn(d0, d1, m, im, bid, p, k)),
    }
}

/// The blocks with the uses of every instruction renamed, where `d0` holds
/// the destinations before definitions got their versions and the blocks
/// themselves hold them after.
pub open spec fn uses_renamed(
    bs: Seq<BasicBlockView>,
    d0: Seq<Seq<Option<Reg>>>,
    m: Map<u32, usize>,
    im: Map<u32, u32>,
) -> Seq<BasicBlockView> {
    Seq::new(bs.len(), |p: int| with_instructions(
        bs[p],
        Seq::new(bs[p].instructions.len(), |k: int| use_renamed(
            bs[p].instructions[k],
            d0,
            dest_table(bs),
            m,
            im,
            bs[p].id,
            p,
            k,
        )),
    ))
}

/// The position of the last definition of `r` before `k`.
pub fn last_def_exec(ds: &Vec<Option<Reg>>, r: u16, k: usize) -> (j: Option<usize>)
    requires
        k <= ds@.len(),
    ensures
        match j {
            Some(x) => last_def(ds@, r, k as int) == Some(x as int),
            None => last_def(ds@, r, k as int) is None,
        },
{
    let mut i: usize = k;
    while i > 0
        invariant
            i <= k <= ds@.len(),
            last_def(ds@, r, k as int) == last_def(ds@, r, i as int),
        decreases i,
    {
        let hit = match ds[i - 1] {
            Some(x) => x.0 == r,
            None => false,
        };
        if hit {
            return Some(i - 1);
        }
        i = i - 1;
    }
    None
}

/// The register the renamed instruction at `(p, j)` writes, or `r`.
fn reg_at_exec(d1: &Vec<Vec<Option<Reg>>>, p: usize, j: usize, r: u16) -> (x: Reg)
    ensures
        x == reg_at(table_view(d1@), p as int, j as int, r),
{
    if p < d1.len() && j < d1[p].len() {
        match d1[p][j] {
            Some(x) => x,
            None => Reg(r),
        }
    } else {
        Reg(r)
    }
}

/// What holds `r` at the end of block `b`.
pub fn out_reg_exec(
    d0: &Vec<Vec<Option<Reg>>>,
    d1: &Vec<Vec<Option<Reg>>>,
    index: &AHashMap<u32, usize>,
    dom: &DominatorTree,
    b: u32,
    r: u16,
) -> (x: Reg)
    ensures
        x == out_reg(table_view(d0@), table_view(d1@), block_index_contents(*index), dom.idom_map(), b, r, WALK_LIMIT as nat),
{
    let ghost t0 = table_view(d0@);
    let ghost t1 = table_view(d1@);
    let ghost m = block_index_contents(*index);
    let ghost im = dom.idom_map();
    let mut cur = b;
    let mut fuel: u64 = WALK_LIMIT;
    while fuel > 0
        invariant
            t0 == table_view(d0@),
            t1 == table_view(d1@),
            m == block_index_contents(*index),
            im == dom.idom_map(),
            out_reg(t0, t1, m, im, cur, r, fuel as nat) == out_reg(t0, t1, m, im, b, r, WALK_LIMIT as nat),
        decreases fuel,
    {
        let p = match block_index_get(index, cur) {
            Some(p) => p,
            None => return Reg(r),
        };
        if p >= d0.len() {
            return Reg(r);
        }
        proof {
            assert(t0[p as int] == d0@[p as int]@);
        }
        let found = last_def_exec(&d0[p], r, d0[p].len());
        proof {
            assert(m.contains_key(cur) && m[cur] == p);
            assert(t0[p as int].len() == d0@[p as int]@.len());
        }
        match found {
            Some(j) => {
                proof {
                    assert(last_def(t0[p as int], r, t0[p as int].len() as int) == Some(j as int));
                    assert(out_reg(t0, t1, m, im, cur, r, fuel as nat) == reg_at(t1, p as int, j as int, r));
                }
                return reg_at_exec(d1, p, j, r);
            },
            None => {},
        }
        match dom.idom(cur) {
            Some(i) => {
                if i == cur {
                    return Reg(r);
                }
                cur = i;
                fuel = fuel - 1;
            },
            None => return Reg(r),
        }
    }
    Reg(r)
}

/// What holds `r` just before instruction `k` of block `bid` at position `p`.
pub fn in_reg_exec(
    d0: &Vec<Vec<Option<Reg>>>,
    d1: &Vec<Vec<Option<Reg>>>,
    index: &AHashMap<u32, usize>,
    dom: &DominatorTree,
    bid: u32,
    p: usize,
    k: usize,
    r: u16,
) -> (x: Reg)
    ensures
        x == in_reg(table_view(d0@), table_view(d1@), block_index_contents(*index), dom.idom_map(), bid, p as int, k as int, r),
{
    let ghost t0 = table_view(d0@);
    let found = if p < d0.len() {
        proof {
            assert(t0[p as int] == d0@[p as int]@);
        }
        if k <= d0[p].len() {
            last_def_exec(&d0[p], r, k)
        } else {
            None
        }
    } else {
        None
    };
    proof {
        if p < d0@.len() && k > d0@[p as int]@.len() {
            assert(last_def(t0[p as int], r, k as int) is None);
        }
        if p >= d0@.len() {
            assert(last_def(Seq::<Option<Reg>>::empty(), r, k as int) is None);
        }
    }
    match found {
        Some(j) => {
            proof {
                assert(p < d0@.len());
                assert(last_def(t0[p as int], r, k as int) == Some(j as int));
            }
            reg_at_exec(d1, p, j, r)
        },
        None => match dom.idom(bid) {
            Some(i) => {
                if i != bid {
                    out_reg_exec(d0, d1, index, dom, i, r)
                } else {
                    Reg(r)
                }
            },
            None => Reg(r),
        },
    }
}

/// Where each use of an instruction reads from.
struct Reaching<'a> {
    d0: &'a Vec<Vec<Option<Reg>>>,
    d1: &'a Vec<Vec<Option<Reg>>>,
    index: &'a AHashMap<u32, usize>,
    dom: &'a DominatorTree,
    bid: u32,
    p: usize,
    k: usize,
}

impl<'a> Reaching<'a> {
    /// How the instruction reads each register.
    spec fn f(&self) -> spec_fn(u16) -> Reg {
        reach_fn(table_view(self.d0@), table_view(self.d1@), block_index_contents(*self.index), self.dom.idom_map(),
            self.bid, self.p as int, self.k as int)
    }

    /// The register that holds `r` here.
    fn reg(&self, r: Reg) -> (x: Reg)
        ensures
            x == (self.f())(r.0),
    {
        in_reg_exec(self.d0, self.d1, self.index, self.dom, self.bid, self.p, self.k, r.0)
    }

    /// An operand read here.
    fn operand(&self, op: Operand) -> (o: Operand)
        ensures
            o@ == operand_uses(op@, self.f()),
    {
        match op {
            Operand::Reg(r) => Operand::Reg(self.reg(r)),
            Operand::FieldAccess { base, offset, field_name } => Operand::FieldAccess { base: self.reg(base), offset, field_name },
            other => other,
        }
    }

    /// A condition read here.
    fn condition(&self, c: Condition) -> (o: Condition)
        ensures
            o@ == condition_uses(c@, self.f()),
    {
        match c {
            Condition::True(r) => Condition::True(self.reg(r)),
            Condition::False(r) => Condition::False(self.reg(r)),
            Condition::TypeCheck(r, t) => Condition::TypeCheck(self.reg(r), t),
            other => other,
        }
    }

    /// Call arguments read here.
    fn operands(&self, args: Vec<Operand>) -> (o: Vec<Operand>)
        ensures
            operands_view(o@) == operands_view(args@).map_values(|a: OperandView| operand_uses(a, self.f())),
    {
        let mut out: Vec<Operand> = Vec::new();
        let mut i: usize = 0;
        while i < args.len()
            invariant
                i <= args@.len(),
                out@.len() == i,
                forall|j: int| 0 <= j < i ==> (#[trigger] out@[j])@ == operand_uses(args@[j]@, self.f()),
            decreases args@.len() - i,
        {
            out.push(self.operand(args[i].copy()));
            i = i + 1;
        }
        assert(operands_view(out@) =~= operands_view(args@).map_values(|a: OperandView| operand_uses(a, self.f())));
        out
    }

    /// Phi sources, each read at the end of its predecessor.
    fn sources(&self, src: &Vec<(BlockId, Reg)>) -> (o: Vec<(BlockId, Reg)>)
        ensures
            o@ == src@.map_values(|s: (BlockId, Reg)| (s.0, out_reg(table_view(self.d0@), table_view(self.d1@),
                block_index_contents(*self.index), self.dom.idom_map(), s.0, s.1.0, WALK_LIMIT as nat))),
    {
        let mut out: Vec<(BlockId, Reg)> = Vec::new();
        let mut i: usize = 0;
        while i < src.len()
            invariant
                i <= src@.len(),
                out@.len() == i,
                forall|j: int| 0 <= j < i ==> #[trigger] out@[j] == (src@[j].0, out_reg(table_view(self.d0@), table_view(self.d1@),
                    block_index_contents(*self.index), self.dom.idom_map(), src@[j].0, src@[j].1.0, WALK_LIMIT as nat)),
            decreases src@.len() - i,
        {
            let (q, r) = src[i];
            let x = out_reg_exec(self.d0, self.d1, self.index, self.dom, q, r.0);
            out.push((q, x));
            i = i + 1;
        }
        assert(out@ =~= src@.map_values(|s: (BlockId, Reg)| (s.0, out_reg(table_view(self.d0@), table_view(self.d1@),
            block_index_contents(*self.index), self.dom.idom_map(), s.0, s.1.0, WALK_LIMIT as nat))));
        out
    }

    /// The instruction with its uses renamed.
    fn instruction(&self, ir: IR) -> (o: IR)
        ensures
            o@ == use_renamed(ir@, table_view(self.d0@), table_view(self.d1@), block_index_contents(*self.index),
                self.dom.idom_map(), self.bid, self.p as int, self.k as int),
    {
        match ir {
            IR::Assign(d, op) => IR::Assign(d, self.operand(op)),
            IR::BinOp { dst, op, lhs, rhs } => IR::BinOp { dst, op, lhs: self.operand(lhs), rhs: self.operand(rhs) },
            IR::UnaryOp { dst, op, src } => IR::UnaryOp { dst, op, src: self.operand(src) },
            IR::Call { dst, kind, args } => {
                let kind = match kind {
                    CallKind::Closure(r) => CallKind::Closure(self.reg(r)),
                    other => other,
                };
                IR::Call { dst, kind, args: self.operands(args) }
            },
            IR::LoadField { dst, base, offset, field_name } => IR::LoadField { dst, base: self.reg(base), offset, field_name },
            IR::StoreField { base, offset, value, field_name } => IR::StoreField {
                base: self.reg(base),
                offset,
                value: self.operand(value),
                field_name,
            },
            IR::Branch { condition, true_target, false_target } => IR::Branch {
                condition: self.condition(condition),
                true_target,
                false_target,
            },
            IR::Return(v) => IR::Return(match v {
                Some(o) => Some(self.operand(o)),
                None => None,
            }),
            IR::Throw(o) => IR::Throw(self.operand(o)),
            IR::Phi { dst, sources } => IR::Phi { dst, sources: self.sources(&sources) },
            IR::NullCheck(r) => IR::NullCheck(self.reg(r)),
            IR::TypeCheck { src, target_type, is_cast } => IR::TypeCheck { src: self.reg(src), target_type, is_cast },
            IR::Compare { lhs, rhs } => IR::Compare { lhs: self.operand(lhs), rhs: self.operand(rhs) },
            other => other,
        }
    }
}

/// The destinations of the instructions of each block of a graph.
pub fn dest_table_of(cfg: &CFG) -> (t: Vec<Vec<Option<Reg>>>)
    ensures
        table_view(t@) == dest_table(cfg.block_list()),
{
    let n = graph_node_count(&cfg.graph);
    let mut t: Vec<Vec<Option<Reg>>> = Vec::new();
    let mut p: usize = 0;
    while p < n
        invariant
            n == graph_nodes(cfg.graph).len(),
            p <= n,
            t@.len() == p,
            forall|i: int| 0 <= i < p ==> (#[trigger] t@[i])@ == dest_table(cfg.block_list())[i],
        decreases n - p,
    {
        let b = graph_node(&cfg.graph, p);
        let mut row: Vec<Option<Reg>> = Vec::new();
        let mut k: usize = 0;
        while k < b.instructions.len()
            invariant
                k <= b.instructions@.len(),
                row@ == b@.instructions.map_values(|i: IRView| dest_of(i)).take(k as int),
            decreases b.instructions@.len() - k,
        {
            let d = b.instructions[k].dest_reg();
            proof {
                super::ssa::lemma_dest_of_view(b.instructions@[k as int]);
            }
            row.push(d);
            assert(row@ =~= b@.instructions.map_values(|i: IRView| dest_of(i)).take(k + 1));
            k = k + 1;
        }
        proof {
            assert(cfg.block_list()[p as int] == b@);
            assert(row@ =~= b@.instructions.map_values(|i: IRView| dest_of(i)));
            assert(dest_table(cfg.block_list())[p as int] == b@.instructions.map_values(|i: IRView| dest_of(i)));
        }
        t.push(row);
        p = p + 1;
    }
    assert(table_view(t@) =~= dest_table(cfg.block_list()));
    t
}

/// Renames the uses of every instruction of a graph to the register that
/// reaches them; `d0` holds the destinations before the definitions got
/// their versions.
pub fn rename_uses(cfg: &mut CFG, d0: &Vec<Vec<Option<Reg>>>, dom: &DominatorTree)
    requires
        old(cfg).wf(),
    ensures
        final(cfg).block_list() == uses_renamed(old(cfg).block_list(), table_view(d0@), old(cfg).index(), dom.idom_map()),
        graph_edges(final(cfg).graph) == graph_edges(old(cfg).graph),
        final(cfg).index() == old(cfg).index(),
        final(cfg).entry == old(cfg).entry,
        final(cfg).wf(),
{
    let ghost ns0 = cfg.block_list();
    let ghost target = uses_renamed(ns0, table_view(d0@), cfg.index(), dom.idom_map());
    let d1 = dest_table_of(cfg);
    let n = graph_node_count(&cfg.graph);
    let mut p: usize = 0;
    while p < n
        invariant
            cfg.wf(),
            cfg.index() == old(cfg).index(),
            cfg.entry == old(cfg).entry,
            graph_edges(cfg.graph) == graph_edges(old(cfg).graph),
            ns0 == old(cfg).block_list(),
            target == uses_renamed(ns0, table_view(d0@), old(cfg).index(), dom.idom_map()),
            table_view(d1@) == dest_table(ns0),
            n == ns0.len(),
            graph_nodes(cfg.graph).len() == n,
            p <= n,
            forall|q: int| 0 <= q < p ==> cfg.block_list()[q] == target[q],
            forall|q: int| p <= q < n ==> cfg.block_list()[q] == ns0[q],
        decreases n - p,
    {
        let b = graph_node(&cfg.graph, p);
        proof {
            assert(cfg.block_list()[p as int] == b@);
        }
        let mut out: Vec<IR> = Vec::new();
        let mut k: usize = 0;
        while k < b.instructions.len()
            invariant
                b@ == ns0[p as int],
                p < n,
                n == ns0.len(),
                table_view(d1@) == dest_table(ns0),
                target == uses_renamed(ns0, table_view(d0@), old(cfg).index(), dom.idom_map()),
                block_index_contents(cfg.block_map) == old(cfg).index(),
                k <= b.instructions@.len(),
                out@.len() == k,
                forall|j: int| 0 <= j < k ==> (#[trigger] out@[j])@ == target[p as int].instructions[j],
            decreases b.instructions@.len() - k,
        {
            let rc = Reaching { d0, d1: &d1, index: &cfg.block_map, dom, bid: b.id, p, k };
            let x = rc.instruction(b.instructions[k].copy());
            proof {
                assert(b@.instructions[k as int] == b.instructions@[k as int]@);
                assert(target[p as int].instructions[k as int] == use_renamed(
                    ns0[p as int].instructions[k as int],
                    table_view(d0@),
                    dest_table(ns0),
                    old(cfg).index(),
                    dom.idom_map(),
                    ns0[p as int].id,
                    p as int,
                    k as int,
                ));
            }
            out.push(x);
            k = k + 1;
        }
        let nb = BasicBlock {
            id: b.id,
            instructions: out,
            predecessors: copy_ids(&b.predecessors),
            successors: copy_ids(&b.successors),
            start_address: b.start_address,
            end_address: b.end_address,
        };
        proof {
            assert(crate::lifter::ir::ir_list_view(nb.instructions@) =~= target[p as int].instructions);
            assert(nb@ == target[p as int]);
        }
        let ghost ns = cfg.block_list();
        let ghost edges_before = cfg.edge_list();
        graph_set_node(&mut cfg.graph, p, nb);
        proof {
            assert(cfg.block_list() =~= ns.update(p as int, nb@));
            assert(cfg.edge_list() == edges_before);
            assert(graph_nodes(cfg.graph).len() == n);
        }
        p = p + 1;
    }
    assert(cfg.block_list() =~= target);
}

} // verus!
