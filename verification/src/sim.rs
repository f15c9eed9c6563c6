//! The simulation kernel: the type-bucketed graph, the two-phase cycle
//! (combinational settling to a fixed point via dirty-index worklists,
//! then a single edge phase), the cycle counter and the deterministic
//! pseudo-random state.

use rand_chacha::ChaCha8Rng;
use vstd::prelude::*;
use vstd::set_lib::set_int_range;

use crate::cell::{cell_changed, cell_csim, cell_edge, cell_set_peer, gview, Bucket, Cell};
use crate::cellview::{cell_kind, cell_ports, BucketV, CellKind, CellV, GraphV};
use crate::dirty::{dirty_elems, set_contains, set_insert, set_len, set_new};
use crate::ports::{NodeId, Port};
use crate::rng::{chacha8_from_seed, chacha8_next, chacha8_word, rng_drawn, rng_seed_of};

verus! {

/// The dirty-index sets, one per bucket.
pub type DirtyV = Seq<Set<int>>;

/// View of a `Sim`: the pseudo-random source as seed and position, the
/// `rng_state` word of the cycle in progress, the cycle counter, the
/// settling iteration bound, and the graph.
pub ghost struct SimV {
    pub seed: u64,
    pub drawn: int,
    pub rng_state: u64,
    pub cycle: u64,
    pub limit: nat,
    pub graph: GraphV,
}

/// The views of the dirty sets held by the worklist vector.
pub open spec fn dviews(d: Vec<tinyset::SetUsize>) -> DirtyV {
    d@.map_values(|s: tinyset::SetUsize| dirty_elems(s))
}

/// Every node of every bucket, as the dirty sets that open a cycle.
pub open spec fn full_dirty(g: GraphV) -> DirtyV {
    Seq::new(g.len(), |b: int| set_int_range(0, g[b].cells.len() as int))
}

/// Whether every dirty set is empty: the settling loop's exit condition.
pub open spec fn dirty_all_empty(d: DirtyV) -> bool {
    forall|b: int| 0 <= b < d.len() ==> d[b] == Set::<int>::empty()
}

/// Well-formedness of the dirty sets against graph `g`: one set per
/// bucket, each finite and holding only indices of nodes of its bucket.
pub open spec fn dirty_wf(g: GraphV, d: DirtyV) -> bool {
    &&& d.len() == g.len()
    &&& forall|b: int| 0 <= b < d.len() ==> (#[trigger] d[b]).finite()
    &&& forall|b: int, x: int|
        0 <= b < d.len() && (#[trigger] d[b].contains(x)) ==> 0 <= x < g[b].cells.len()
}

/// One settling iteration of one bucket: every dirty node is evaluated
/// against the pre-iteration graph `g`; the others are kept.
pub open spec fn bucket_step(bk: BucketV, g: GraphV, d: Set<int>) -> BucketV {
    BucketV {
        kind: bk.kind,
        cells: Seq::new(
            bk.cells.len(),
            |i: int| if d.contains(i) {
                cell_csim(bk.cells[i], g)
            } else {
                bk.cells[i]
            },
        ),
    }
}

/// One settling iteration of the whole graph. Every evaluation reads the
/// same pre-iteration graph `g`, never a same-iteration write.
pub open spec fn graph_step(g: GraphV, d: DirtyV) -> GraphV {
    Seq::new(g.len(), |b: int| bucket_step(g[b], g, d[b]))
}

/// Mark the node addressed by `node` as dirty, if it exists in `g`.
pub open spec fn mark_node(acc: DirtyV, g: GraphV, node: NodeId) -> DirtyV {
    if node.ntype < g.len() && node.index < g[node.ntype as int].cells.len() {
        acc.update(node.ntype as int, acc[node.ntype as int].insert(node.index as int))
    } else {
        acc
    }
}

/// Mark every node addressed by one of `ports`, front to back.
pub open spec fn mark_ports(acc: DirtyV, g: GraphV, ports: Seq<Port>) -> DirtyV
    decreases ports.len(),
{
    if ports.len() == 0 {
        acc
    } else {
        let acc1 = match ports[0] {
            Port::Wire { node, port } => mark_node(acc, g, node),
            Port::Z => acc,
        };
        mark_ports(acc1, g, ports.skip(1))
    }
}

/// The dirty marks contributed by node `(b, i)`: if it was dirty and its
/// evaluation changed it, the node itself and every node it addresses.
pub open spec fn acc_node(acc: DirtyV, g: GraphV, d: DirtyV, b: int, i: int) -> DirtyV {
    if d[b].contains(i) && cell_changed(g[b].cells[i], g) {
        mark_ports(
            acc.update(b, acc[b].insert(i)),
            g,
            cell_ports(cell_csim(g[b].cells[i], g)),
        )
    } else {
        acc
    }
}

/// The dirty marks of bucket `b`, nodes `i` onward.
pub open spec fn acc_bucket(acc: DirtyV, g: GraphV, d: DirtyV, b: int, i: int) -> DirtyV
    decreases g[b].cells.len() - i,
{
    if 0 <= i < g[b].cells.len() {
        acc_bucket(acc_node(acc, g, d, b, i), g, d, b, i + 1)
    } else {
        acc
    }
}

/// The dirty marks of buckets `b` onward.
pub open spec fn acc_graph(acc: DirtyV, g: GraphV, d: DirtyV, b: int) -> DirtyV
    decreases g.len() - b,
{
    if 0 <= b < g.len() {
        acc_graph(acc_bucket(acc, g, d, b, 0), g, d, b + 1)
    } else {
        acc
    }
}

/// Empty dirty sets, one per bucket of `g`.
pub open spec fn empty_dirty(g: GraphV) -> DirtyV {
    Seq::new(g.len(), |b: int| Set::<int>::empty())
}

/// The dirty sets of the next settling iteration: for every dirty node
/// whose evaluation changed it, the node itself and every node it
/// addresses.
pub open spec fn spec_next_dirty(g: GraphV, d: DirtyV) -> DirtyV {
    acc_graph(empty_dirty(g), g, d, 0)
}

/// The dirty nodes among the first `n` of bucket `b` whose evaluation
/// against `g` alters an observable port field.
pub open spec fn changed_upto(g: GraphV, d: DirtyV, b: int, n: int) -> Set<int> {
    Set::new(|x: int| 0 <= x < n && d[b].contains(x) && cell_changed(g[b].cells[x], g))
}

/// The nodes an iteration changes: the dirty nodes whose evaluation
/// against `g` alters an observable port field.
pub open spec fn spec_changed_set(g: GraphV, d: DirtyV) -> DirtyV {
    Seq::new(g.len(), |b: int| changed_upto(g, d, b, g[b].cells.len() as int))
}

/// The least dirty in-range index of `s`, scanning `i..n`.
pub open spec fn first_in_set(s: Set<int>, i: int, n: int) -> Option<int>
    decreases n - i,
{
    if i < 0 || i >= n {
        None
    } else if s.contains(i) {
        Some(i)
    } else {
        first_in_set(s, i + 1, n)
    }
}

/// The first dirty node of the graph, scanning buckets `b` onward.
pub open spec fn spec_first_dirty(g: GraphV, d: DirtyV, b: int) -> Option<NodeId>
    decreases g.len() - b,
{
    if b < 0 || b >= g.len() {
        None
    } else {
        match first_in_set(d[b], 0, g[b].cells.len() as int) {
            Some(i) => Some(NodeId { ntype: b as usize, index: i as usize }),
            None => spec_first_dirty(g, d, b + 1),
        }
    }
}

/// The first marked node of the graph, in bucket-then-index order.
pub open spec fn first_dirty_node(g: GraphV, d: DirtyV) -> NodeId {
    match spec_first_dirty(g, d, 0) {
        Some(id) => id,
        None => NodeId { ntype: 0, index: 0 },
    }
}

/// The outcome of the settling loop: whether it converged, the graph it
/// left behind, and, when it did not converge, a node that changed on
/// the last iteration.
pub ghost struct SettleOut {
    pub converged: bool,
    pub graph: GraphV,
    pub culprit: NodeId,
}

/// The settling loop: step the dirty nodes and recompute the dirty sets
/// until all are empty, giving up after `fuel` iterations. `ch` carries
/// the nodes the iteration that produced `d` changed, so that giving up
/// reports a node that changed on the last iteration; the first call
/// passes the initial dirty sets, naming the graph's first node when
/// the bound allows no iteration at all.
pub open spec fn spec_settle(g: GraphV, d: DirtyV, ch: DirtyV, fuel: nat) -> SettleOut
    decreases fuel,
{
    if dirty_all_empty(d) {
        SettleOut { converged: true, graph: g, culprit: NodeId { ntype: 0, index: 0 } }
    } else if fuel == 0 {
        SettleOut { converged: false, graph: g, culprit: first_dirty_node(g, ch) }
    } else {
        spec_settle(
            graph_step(g, d),
            spec_next_dirty(g, d),
            spec_changed_set(g, d),
            (fuel - 1) as nat,
        )
    }
}

/// The edge phase: every node applies its sequential transition, all of
/// them reading the same settled pre-edge graph `g`.
pub open spec fn spec_edge_all(g: GraphV) -> GraphV {
    Seq::new(
        g.len(),
        |b: int| BucketV {
            kind: g[b].kind,
            cells: Seq::new(g[b].cells.len(), |i: int| cell_edge(g[b].cells[i], g)),
        },
    )
}

/// Whether settling converges within the bound for the cycle opening at
/// `v`.
pub open spec fn spec_cycle_converges(v: SimV) -> bool {
    spec_settle(v.graph, full_dirty(v.graph), full_dirty(v.graph), v.limit).converged
}

/// The dirty node reported when it does not.
pub open spec fn spec_cycle_culprit(v: SimV) -> NodeId {
    spec_settle(v.graph, full_dirty(v.graph), full_dirty(v.graph), v.limit).culprit
}

/// One whole cycle: draw the cycle's `rng_state` word, settle from the
/// all-dirty worklist, and, on convergence, advance the cycle counter
/// and apply the edge phase. On non-convergence the counter stands still
/// and the partially settled graph remains.
pub open spec fn spec_cycle(v: SimV) -> SimV {
    let w = chacha8_word(v.seed, v.drawn);
    let out = spec_settle(v.graph, full_dirty(v.graph), full_dirty(v.graph), v.limit);
    if out.converged {
        SimV {
            seed: v.seed,
            drawn: v.drawn + 1,
            rng_state: w,
            cycle: (v.cycle + 1) as u64,
            limit: v.limit,
            graph: spec_edge_all(out.graph),
        }
    } else {
        SimV {
            seed: v.seed,
            drawn: v.drawn + 1,
            rng_state: w,
            cycle: v.cycle,
            limit: v.limit,
            graph: out.graph,
        }
    }
}

/// The first bucket of kind `k`, scanning buckets `b` onward.
pub open spec fn spec_find_bucket(g: GraphV, k: CellKind, b: int) -> Option<int>
    decreases g.len() - b,
{
    if b < 0 || b >= g.len() {
        None
    } else if g[b].kind == k {
        Some(b)
    } else {
        spec_find_bucket(g, k, b + 1)
    }
}

/// Registering a cell: it joins the first bucket of its kind, or founds
/// a fresh bucket at the end; its stable id is the result.
pub open spec fn spec_add_node(g: GraphV, c: CellV) -> (GraphV, NodeId) {
    match spec_find_bucket(g, cell_kind(c), 0) {
        Some(b) => (
            g.update(b, BucketV { kind: g[b].kind, cells: g[b].cells.push(c) }),
            NodeId { ntype: b as usize, index: g[b].cells.len() as usize },
        ),
        None => (
            g.push(BucketV { kind: cell_kind(c), cells: seq![c] }),
            NodeId { ntype: g.len() as usize, index: 0 },
        ),
    }
}

/// Writing peer address `addr` into local port `port` of node `id`: the
/// updated graph, and whether the node and port exist.
pub open spec fn spec_set_peer(g: GraphV, id: NodeId, port: int, addr: Port) -> (GraphV, bool) {
    if id.ntype < g.len() && id.index < g[id.ntype as int].cells.len() {
        let r = cell_set_peer(g[id.ntype as int].cells[id.index as int], port, addr);
        (
            g.update(
                id.ntype as int,
                BucketV {
                    kind: g[id.ntype as int].kind,
                    cells: g[id.ntype as int].cells.update(id.index as int, r.0),
                },
            ),
            r.1,
        )
    } else {
        (g, false)
    }
}

/// A fault the kernel reports to the caller.
#[derive(Debug, Copy, Clone, PartialEq, Eq, Structural)]
pub enum SimFault {
    /// Combinational settling exceeded the iteration bound. `node` is
    /// the first node, in bucket-then-index order, whose evaluation
    /// changed it on the last iteration (with a bound of zero no
    /// iteration ran, and the graph's first node stands).
    NonConvergence { node: NodeId },
}

/// The settling iteration bound a fresh `Sim` starts with.
pub const DEFAULT_SETTLE_LIMIT: usize = 1000;

/// The simulator: the graph of cells, the master pseudo-random source,
/// the cycle's `rng_state` word, the cycle counter, and the settling
/// iteration bound.
pub struct Sim {
    pub graph: Vec<Bucket>,
    /// The master generator. The kernel only ever holds generators
    /// built by seeding with a word, which the view models as a seed
    /// and a position; installing a generator obtained any other way
    /// voids that model.
    pub rng: ChaCha8Rng,
    pub rng_state: u64,
    pub cycle: u64,
    pub settle_limit: usize,
}

impl View for Sim {
    type V = SimV;

    open spec fn view(&self) -> SimV {
        SimV {
            seed: rng_seed_of(self.rng),
            drawn: rng_drawn(self.rng),
            rng_state: self.rng_state,
            cycle: self.cycle,
            limit: self.settle_limit as nat,
            graph: gview(self.graph),
        }
    }
}

impl Sim {
    /// A simulator with an empty graph, its pseudo-random source seeded
    /// by `seed`, its first `rng_state` word already drawn.
    pub fn new(seed: u64) -> (r: Sim)
        ensures
            r@ == (SimV {
                seed,
                drawn: 1,
                rng_state: chacha8_word(seed, 0),
                cycle: 0,
                limit: DEFAULT_SETTLE_LIMIT as nat,
                graph: Seq::<BucketV>::empty(),
            }),
    {
        let mut rng = chacha8_from_seed(seed);
        let rng_state = chacha8_next(&mut rng);
        let r = Sim {
            graph: Vec::new(),
            rng,
            rng_state,
            cycle: 0,
            settle_limit: DEFAULT_SETTLE_LIMIT,
        };
        proof {
            assert(gview(r.graph) =~= Seq::<BucketV>::empty());
        }
        r
    }

    /// Register a cell: it joins the first bucket of its kind, or founds
    /// a fresh one; the returned id is stable for the life of the `Sim`.
    pub fn add_node(&mut self, node: Cell) -> (id: NodeId)
        ensures
            final(self)@.graph == spec_add_node(old(self)@.graph, node@).0,
            id == spec_add_node(old(self)@.graph, node@).1,
            final(self)@.seed == old(self)@.seed,
            final(self)@.drawn == old(self)@.drawn,
            final(self)@.rng_state == old(self)@.rng_state,
            final(self)@.cycle == old(self)@.cycle,
            final(self)@.limit == old(self)@.limit,
    {
        let k = node.kind();
        let ghost g0 = gview(self.graph);
        let mut b: usize = 0;
        while b < self.graph.len()
            invariant
                b <= self.graph.len(),
                *self == *old(self),
                g0 == gview(self.graph),
                k == cell_kind(node@),
                spec_find_bucket(g0, k, 0) == spec_find_bucket(g0, k, b as int),
            decreases self.graph.len() - b,
        {
            proof {
                assert(g0[b as int] == self.graph@[b as int]@);
            }
            if self.graph[b].kind == k {
                proof {
                    assert(spec_find_bucket(g0, k, b as int) == Some(b as int));
                }
                let idx = self.graph[b].cells.len();
                let ghost s0 = self.graph@;
                let bucket = &mut self.graph[b];
                let ghost ob = *bucket;
                bucket.cells.push(node);
                proof {
                    crate::cellview::lemma_map_values_push(ob.cells@, node, |c: Cell| c@);
                    crate::cellview::lemma_map_values_update(
                        s0,
                        b as int,
                        self.graph@[b as int],
                        |bk: Bucket| bk@,
                    );
                    assert(gview(self.graph) == spec_add_node(g0, node@).0);
                }
                return NodeId { ntype: b, index: idx };
            }
            b = b + 1;
        }
        proof {
            assert(spec_find_bucket(g0, k, b as int) is None);
        }
        let ntype = self.graph.len();
        let mut cells: Vec<Cell> = Vec::new();
        cells.push(node);
        let ghost s0 = self.graph@;
        let newb = Bucket { kind: k, cells };
        self.graph.push(newb);
        proof {
            crate::cellview::lemma_map_values_push(s0, self.graph@[ntype as int], |bk: Bucket| bk@);
            assert(self.graph@[ntype as int]@.cells =~= seq![node@]);
            assert(gview(self.graph) == spec_add_node(g0, node@).0);
        }
        NodeId { ntype, index: 0 }
    }

    /// The cell registered under `id`, if `id` is in range.
    pub fn get_node(&self, id: &NodeId) -> (r: Option<&Cell>)
        ensures
            match r {
                Some(c) => id.ntype < self@.graph.len()
                    && id.index < self@.graph[id.ntype as int].cells.len()
                    && c@ == self@.graph[id.ntype as int].cells[id.index as int],
                None => !(id.ntype < self@.graph.len()
                    && id.index < self@.graph[id.ntype as int].cells.len()),
            },
    {
        if id.ntype < self.graph.len() {
            let bucket = &self.graph[id.ntype];
            if id.index < bucket.cells.len() {
                proof {
                    assert(self@.graph[id.ntype as int] == bucket@);
                }
                Some(&bucket.cells[id.index])
            } else {
                None
            }
        } else {
            None
        }
    }

    /// A mutable borrow of the cell registered under `id`, if `id` is in
    /// range; used between cycles to wire ports and adjust cell state.
    /// Whatever the caller leaves in the borrow replaces the cell; the
    /// rest of the simulator is untouched.
    pub fn get_node_mut<'a>(&'a mut self, id: &NodeId) -> (r: Option<&'a mut Cell>)
        ensures
            r matches Some(c) ==> id.ntype < old(self).graph@.len() && id.index < old(
                self,
            ).graph@[id.ntype as int].cells@.len(),
            r matches Some(c) ==> *c == old(self).graph@[id.ntype as int].cells@[id.index as int],
            r matches Some(c) ==> final(self).graph@.len() == old(self).graph@.len(),
            r matches Some(c) ==> final(self).graph@[id.ntype as int].cells@ == old(
                self,
            ).graph@[id.ntype as int].cells@.update(id.index as int, *final(c)),
            r matches Some(c) ==> final(self).graph@[id.ntype as int].kind == old(
                self,
            ).graph@[id.ntype as int].kind,
            r matches Some(c) ==> forall|b2: int|
                0 <= b2 < old(self).graph@.len() && b2 != id.ntype ==> final(self).graph@[b2]
                    == old(self).graph@[b2],
            r matches Some(c) ==> final(self).rng == old(self).rng && final(self).rng_state == old(
                self,
            ).rng_state && final(self).cycle == old(self).cycle && final(self).settle_limit == old(
                self,
            ).settle_limit,
            r is None ==> !(id.ntype < old(self).graph@.len() && id.index < old(
                self,
            ).graph@[id.ntype as int].cells@.len()),
            r is None ==> *final(self) == *old(self),
    {
        if id.ntype < self.graph.len() && id.index < self.graph[id.ntype].cells.len() {
            let bucket = &mut self.graph[id.ntype];
            Some(&mut bucket.cells[id.index])
        } else {
            None
        }
    }

    /// Write peer address `addr` into local port `port` of node `id`;
    /// reports whether the node and port exist.
    pub fn set_peer(&mut self, id: &NodeId, port: usize, addr: Port) -> (ok: bool)
        ensures
            final(self)@.graph == spec_set_peer(old(self)@.graph, *id, port as int, addr).0,
            ok == spec_set_peer(old(self)@.graph, *id, port as int, addr).1,
            final(self)@.seed == old(self)@.seed,
            final(self)@.drawn == old(self)@.drawn,
            final(self)@.rng_state == old(self)@.rng_state,
            final(self)@.cycle == old(self)@.cycle,
            final(self)@.limit == old(self)@.limit,
    {
        let ghost g0 = gview(self.graph);
        let ghost s0 = self.graph@;
        if id.ntype < self.graph.len() {
            let in_range = id.index < self.graph[id.ntype].cells.len();
            proof {
                assert(g0[id.ntype as int] == s0[id.ntype as int]@);
            }
            if in_range {
                let bucket = &mut self.graph[id.ntype];
                let ghost ob = *bucket;
                let ghost c0 = bucket.cells@;
                let cell = &mut bucket.cells[id.index];
                let ghost oc = *cell;
                let ok = cell.set_peer(port, addr);
                proof {
                    crate::cellview::lemma_map_values_update(
                        c0,
                        id.index as int,
                        self.graph@[id.ntype as int].cells@[id.index as int],
                        |c: Cell| c@,
                    );
                    crate::cellview::lemma_map_values_update(
                        s0,
                        id.ntype as int,
                        self.graph@[id.ntype as int],
                        |bk: Bucket| bk@,
                    );
                    assert(oc@ == g0[id.ntype as int].cells[id.index as int]);
                    assert(gview(self.graph) == spec_set_peer(g0, *id, port as int, addr).0);
                }
                ok
            } else {
                false
            }
        } else {
            false
        }
    }
}

/// Insert index `i` into the dirty set of bucket `b`.
fn dirty_insert(d: &mut Vec<tinyset::SetUsize>, b: usize, i: usize)
    requires
        b < old(d)@.len(),
    ensures
        final(d)@.len() == old(d)@.len(),
        dviews(*final(d)) == dviews(*old(d)).update(
            b as int,
            dviews(*old(d))[b as int].insert(i as int),
        ),
{
    let ghost s0 = d@;
    let s = &mut d[b];
    set_insert(s, i);
    proof {
        crate::cellview::lemma_map_values_update(
            s0,
            b as int,
            d@[b as int],
            |s: tinyset::SetUsize| dirty_elems(s),
        );
    }
}

/// Fresh dirty sets marking every node of every bucket: how a cycle's
/// settling begins.
fn init_dirty(g: &Vec<Bucket>) -> (r: Vec<tinyset::SetUsize>)
    ensures
        dviews(r) == full_dirty(gview(*g)),
        dirty_wf(gview(*g), dviews(r)),
{
    let mut r: Vec<tinyset::SetUsize> = Vec::new();
    let mut b: usize = 0;
    while b < g.len()
        invariant
            b <= g@.len(),
            r@.len() == b,
            forall|j: int| 0 <= j < b ==> dirty_elems(r@[j]) == full_dirty(gview(*g))[j],
        decreases g@.len() - b,
    {
        proof {
            assert(gview(*g)[b as int] == g@[b as int]@);
        }
        let n = g[b].cells.len();
        let mut s = set_new();
        let mut i: usize = 0;
        while i < n
            invariant
                i <= n,
                dirty_elems(s) == set_int_range(0, i as int),
            decreases n - i,
        {
            set_insert(&mut s, i);
            proof {
                assert(set_int_range(0, i as int).insert(i as int) =~= set_int_range(
                    0,
                    i as int + 1,
                ));
            }
            i = i + 1;
        }
        let ghost prev = r@;
        r.push(s);
        proof {
            assert(full_dirty(gview(*g))[b as int] == set_int_range(0, n as int));
            assert forall|j: int| 0 <= j < b + 1 implies dirty_elems(r@[j]) == full_dirty(
                gview(*g),
            )[j] by {
                if j < b {
                    assert(r@[j] == prev[j]);
                }
            }
        }
        b = b + 1;
    }
    proof {
        assert forall|j: int| 0 <= j < r@.len() implies dviews(r)[j] == dirty_elems(r@[j]) by {}
        assert(dviews(r) =~= full_dirty(gview(*g)));
        assert forall|b2: int| 0 <= b2 < full_dirty(gview(*g)).len() implies (#[trigger] full_dirty(
            gview(*g),
        )[b2]).finite() by {
            vstd::set_lib::lemma_int_range(0, gview(*g)[b2].cells.len() as int);
        }
    }
    r
}

/// Whether every dirty set is empty.
fn all_empty(d: &Vec<tinyset::SetUsize>) -> (r: bool)
    ensures
        r == dirty_all_empty(dviews(*d)),
{
    let mut b: usize = 0;
    let mut r = true;
    while b < d.len()
        invariant
            b <= d@.len(),
            r == (forall|j: int| 0 <= j < b ==> dviews(*d)[j] == Set::<int>::empty()),
        decreases d@.len() - b,
    {
        proof {
            assert(dviews(*d)[b as int] == dirty_elems(d@[b as int]));
        }
        if set_len(&d[b]) != 0 {
            r = false;
        }
        b = b + 1;
    }
    r
}

/// The first dirty node, scanning buckets then indices in order.
fn find_dirty(g: &Vec<Bucket>, d: &Vec<tinyset::SetUsize>) -> (r: NodeId)
    requires
        d@.len() == gview(*g).len(),
    ensures
        r == first_dirty_node(gview(*g), dviews(*d)),
{
    let mut b: usize = 0;
    while b < g.len()
        invariant
            b <= g@.len(),
            d@.len() == g@.len(),
            spec_first_dirty(gview(*g), dviews(*d), 0) == spec_first_dirty(
                gview(*g),
                dviews(*d),
                b as int,
            ),
        decreases g@.len() - b,
    {
        proof {
            assert(gview(*g)[b as int] == g@[b as int]@);
        }
        let n = g[b].cells.len();
        let mut i: usize = 0;
        while i < n
            invariant
                i <= n,
                b < g@.len(),
                d@.len() == g@.len(),
                n == gview(*g)[b as int].cells.len(),
                first_in_set(dviews(*d)[b as int], 0, n as int) == first_in_set(
                    dviews(*d)[b as int],
                    i as int,
                    n as int,
                ),
                spec_first_dirty(gview(*g), dviews(*d), 0) == spec_first_dirty(
                    gview(*g),
                    dviews(*d),
                    b as int,
                ),
            decreases n - i,
        {
            if set_contains(&d[b], i) {
                proof {
                    assert(first_in_set(dviews(*d)[b as int], i as int, n as int) == Some(
                        i as int,
                    ));
                }
                return NodeId { ntype: b, index: i };
            }
            i = i + 1;
        }
        b = b + 1;
    }
    NodeId { ntype: 0, index: 0 }
}

/// One settling iteration: evaluate every dirty node against the
/// pre-iteration graph, building the next graph and the next dirty sets.
fn settle_step(g: &Vec<Bucket>, d: &Vec<tinyset::SetUsize>) -> (r: (
    Vec<Bucket>,
    Vec<tinyset::SetUsize>,
    Vec<tinyset::SetUsize>,
))
    requires
        dirty_wf(gview(*g), dviews(*d)),
    ensures
        gview(r.0) == graph_step(gview(*g), dviews(*d)),
        dviews(r.1) == spec_next_dirty(gview(*g), dviews(*d)),
        dirty_wf(graph_step(gview(*g), dviews(*d)), dviews(r.1)),
        dviews(r.2) == spec_changed_set(gview(*g), dviews(*d)),
        r.2@.len() == gview(*g).len(),
{
    let ghost gv = gview(*g);
    let ghost dv = dviews(*d);
    let mut nd: Vec<tinyset::SetUsize> = Vec::new();
    let mut b0: usize = 0;
    while b0 < g.len()
        invariant
            b0 <= g@.len(),
            nd@.len() == b0,
            forall|j: int| 0 <= j < b0 ==> dirty_elems(nd@[j]) == Set::<int>::empty(),
        decreases g@.len() - b0,
    {
        let s = set_new();
        let ghost prev = nd@;
        nd.push(s);
        proof {
            assert forall|j: int| 0 <= j < b0 + 1 implies dirty_elems(nd@[j])
                == Set::<int>::empty() by {
                if j < b0 {
                    assert(nd@[j] == prev[j]);
                }
            }
        }
        b0 = b0 + 1;
    }
    proof {
        assert forall|j: int| 0 <= j < nd@.len() implies dviews(nd)[j] == dirty_elems(nd@[j]) by {}
        assert(dviews(nd) =~= empty_dirty(gv));
    }

    let mut next: Vec<Bucket> = Vec::new();
    let mut cs: Vec<tinyset::SetUsize> = Vec::new();
    let mut b: usize = 0;
    while b < g.len()
        invariant
            b <= g@.len(),
            gv == gview(*g),
            dv == dviews(*d),
            dirty_wf(gv, dv),
            next@.len() == b,
            forall|j: int| 0 <= j < b ==> next@[j]@ == graph_step(gv, dv)[j],
            cs@.len() == b,
            forall|j: int| 0 <= j < b ==> dirty_elems(cs@[j]) == spec_changed_set(gv, dv)[j],
            nd@.len() == gv.len(),
            dirty_wf(gv, dviews(nd)),
            acc_graph(dviews(nd), gv, dv, b as int) == spec_next_dirty(gv, dv),
        decreases g@.len() - b,
    {
        proof {
            assert(gv[b as int] == g@[b as int]@);
        }
        let n = g[b].cells.len();
        let mut cells: Vec<Cell> = Vec::new();
        let mut bset = set_new();
        proof {
            assert(dirty_elems(bset) =~= changed_upto(gv, dv, b as int, 0));
        }
        let mut i: usize = 0;
        while i < n
            invariant
                i <= n,
                b < g@.len(),
                gv == gview(*g),
                dv == dviews(*d),
                dirty_wf(gv, dv),
                gv[b as int] == g@[b as int]@,
                n == gv[b as int].cells.len(),
                cells@.len() == i,
                forall|j: int| 0 <= j < i ==> cells@[j]@ == bucket_step(
                    gv[b as int],
                    gv,
                    dv[b as int],
                ).cells[j],
                dirty_elems(bset) == changed_upto(gv, dv, b as int, i as int),
                nd@.len() == gv.len(),
                dirty_wf(gv, dviews(nd)),
                acc_graph(
                    acc_bucket(dviews(nd), gv, dv, b as int, i as int),
                    gv,
                    dv,
                    b as int + 1,
                ) == spec_next_dirty(gv, dv),
            decreases n - i,
        {
            proof {
                assert(gv[b as int].cells[i as int] == g@[b as int].cells@[i as int]@);
            }
            let mut c = g[b].cells[i].duplicate();
            let ghost nd_before = dviews(nd);
            let is_dirty = set_contains(&d[b], i);
            if is_dirty {
                let changed = c.csim(g);
                if changed {
                    set_insert(&mut bset, i);
                    proof {
                        assert(dirty_elems(bset) =~= changed_upto(gv, dv, b as int, i as int + 1));
                    }
                    dirty_insert(&mut nd, b, i);
                    let ghost acc1 = nd_before.update(
                        b as int,
                        nd_before[b as int].insert(i as int),
                    );
                    let ports = c.get_port_ids();
                    proof {
                        assert(ports@.skip(0) =~= ports@);
                        assert(dviews(nd) == acc1);
                    }
                    let mut p: usize = 0;
                    while p < ports.len()
                        invariant
                            p <= ports@.len(),
                            gv == gview(*g),
                            nd@.len() == gv.len(),
                            dirty_wf(gv, dviews(nd)),
                            mark_ports(dviews(nd), gv, ports@.skip(p as int)) == mark_ports(
                                acc1,
                                gv,
                                ports@,
                            ),
                        decreases ports@.len() - p,
                    {
                        let ghost nd_p = dviews(nd);
                        match ports[p] {
                            Port::Wire { node, port } => {
                                if node.ntype < g.len() {
                                    proof {
                                        assert(gv[node.ntype as int] == g@[node.ntype as int]@);
                                    }
                                    if node.index < g[node.ntype].cells.len() {
                                        dirty_insert(&mut nd, node.ntype, node.index);
                                    }
                                }
                            },
                            Port::Z => {},
                        }
                        proof {
                            assert(dviews(nd) == (match ports@[p as int] {
                                Port::Wire { node, port } => mark_node(nd_p, gv, node),
                                Port::Z => nd_p,
                            }));
                            assert(ports@.skip(p as int).skip(1) =~= ports@.skip(p as int + 1));
                            assert(ports@.skip(p as int)[0] == ports@[p as int]);
                        }
                        p = p + 1;
                    }
                    proof {
                        assert(ports@.skip(ports@.len() as int) =~= Seq::<Port>::empty());
                        assert(dviews(nd) == mark_ports(acc1, gv, ports@));
                        assert(dviews(nd) == acc_node(nd_before, gv, dv, b as int, i as int));
                    }
                } else {
                    proof {
                        assert(dviews(nd) == acc_node(nd_before, gv, dv, b as int, i as int));
                        assert(dirty_elems(bset) =~= changed_upto(gv, dv, b as int, i as int + 1));
                    }
                }
            } else {
                proof {
                    assert(dviews(nd) == acc_node(nd_before, gv, dv, b as int, i as int));
                    assert(dirty_elems(bset) =~= changed_upto(gv, dv, b as int, i as int + 1));
                }
            }
            cells.push(c);
            i = i + 1;
        }
        let ghost prevn = next@;
        next.push(Bucket { kind: g[b].kind, cells });
        let ghost prevcs = cs@;
        cs.push(bset);
        proof {
            assert(next@[b as int]@.cells =~= bucket_step(gv[b as int], gv, dv[b as int]).cells);
            assert(next@[b as int]@ == graph_step(gv, dv)[b as int]);
            assert forall|j: int| 0 <= j < b + 1 implies next@[j]@ == graph_step(gv, dv)[j] by {
                if j < b {
                    assert(next@[j] == prevn[j]);
                }
            }
            assert(dirty_elems(cs@[b as int]) =~= spec_changed_set(gv, dv)[b as int]);
            assert forall|j: int| 0 <= j < b + 1 implies dirty_elems(cs@[j]) == spec_changed_set(
                gv,
                dv,
            )[j] by {
                if j < b {
                    assert(cs@[j] == prevcs[j]);
                }
            }
        }
        b = b + 1;
    }
    proof {
        assert forall|j: int| 0 <= j < next@.len() implies gview(next)[j] == next@[j]@ by {}
        assert(gview(next) =~= graph_step(gv, dv));
        assert(dviews(nd) == spec_next_dirty(gv, dv));
        assert forall|j: int| 0 <= j < cs@.len() implies dviews(cs)[j] == dirty_elems(cs@[j]) by {}
        assert(dviews(cs) =~= spec_changed_set(gv, dv));
        assert forall|b2: int, x: int|
            0 <= b2 < dviews(nd).len() && (#[trigger] dviews(nd)[b2].contains(x)) implies 0 <= x
            < graph_step(gv, dv)[b2].cells.len() by {
            assert(graph_step(gv, dv)[b2].cells.len() == gv[b2].cells.len());
        }
    }
    (next, nd, cs)
}

/// The settling loop: step the dirty nodes and recompute the dirty sets
/// until all are empty; after `limit` iterations give up, reporting a
/// node that changed on the last iteration. `changed` seeds the report
/// for the case that the bound allows no iteration at all.
fn settle(
    graph: Vec<Bucket>,
    dirty: Vec<tinyset::SetUsize>,
    changed: Vec<tinyset::SetUsize>,
    limit: usize,
) -> (r: (Vec<Bucket>, Result<(), NodeId>))
    requires
        dirty_wf(gview(graph), dviews(dirty)),
        changed@.len() == gview(graph).len(),
    ensures
        ({
            let out = spec_settle(gview(graph), dviews(dirty), dviews(changed), limit as nat);
            &&& gview(r.0) == out.graph
            &&& r.1 == (if out.converged {
                Result::<(), NodeId>::Ok(())
            } else {
                Result::<(), NodeId>::Err(out.culprit)
            })
        }),
{
    let ghost gv0 = gview(graph);
    let ghost dv0 = dviews(dirty);
    let ghost cv0 = dviews(changed);
    let mut g = graph;
    let mut d = dirty;
    let mut cs = changed;
    let mut iters: usize = 0;
    let mut res: Result<(), NodeId> = Ok(());
    loop
        invariant_except_break
            iters <= limit,
            dirty_wf(gview(g), dviews(d)),
            cs@.len() == gview(g).len(),
            spec_settle(gv0, dv0, cv0, limit as nat) == spec_settle(
                gview(g),
                dviews(d),
                dviews(cs),
                (limit - iters) as nat,
            ),
        ensures
            ({
                let out = spec_settle(gv0, dv0, cv0, limit as nat);
                &&& gview(g) == out.graph
                &&& res == (if out.converged {
                    Result::<(), NodeId>::Ok(())
                } else {
                    Result::<(), NodeId>::Err(out.culprit)
                })
            }),
        decreases limit - iters,
    {
        if all_empty(&d) {
            res = Ok(());
            break;
        }
        if iters == limit {
            res = Err(find_dirty(&g, &cs));
            break;
        }
        let (g2, d2, c2) = settle_step(&g, &d);
        proof {
            assert(spec_settle(gview(g), dviews(d), dviews(cs), (limit - iters) as nat)
                == spec_settle(
                graph_step(gview(g), dviews(d)),
                spec_next_dirty(gview(g), dviews(d)),
                spec_changed_set(gview(g), dviews(d)),
                (limit - (iters + 1)) as nat,
            ));
        }
        g = g2;
        d = d2;
        cs = c2;
        iters = iters + 1;
    }
    (g, res)
}

/// The edge phase: every node applies its sequential transition, all of
/// them observing the same settled pre-edge graph.
fn edge_all(g: Vec<Bucket>) -> (r: Vec<Bucket>)
    ensures
        gview(r) == spec_edge_all(gview(g)),
{
    let mut next: Vec<Bucket> = Vec::new();
    let mut b: usize = 0;
    while b < g.len()
        invariant
            b <= g@.len(),
            next@.len() == b,
            forall|j: int| 0 <= j < b ==> next@[j]@ == spec_edge_all(gview(g))[j],
        decreases g@.len() - b,
    {
        proof {
            assert(gview(g)[b as int] == g@[b as int]@);
        }
        let n = g[b].cells.len();
        let mut cells: Vec<Cell> = Vec::new();
        let mut i: usize = 0;
        while i < n
            invariant
                i <= n,
                b < g@.len(),
                gview(g)[b as int] == g@[b as int]@,
                n == gview(g)[b as int].cells.len(),
                cells@.len() == i,
                forall|j: int| 0 <= j < i ==> cells@[j]@ == cell_edge(
                    gview(g)[b as int].cells[j],
                    gview(g),
                ),
            decreases n - i,
        {
            proof {
                assert(gview(g)[b as int].cells[i as int] == g@[b as int].cells@[i as int]@);
            }
            let mut c = g[b].cells[i].duplicate();
            c.edge(&g);
            cells.push(c);
            i = i + 1;
        }
        let ghost prevn = next@;
        next.push(Bucket { kind: g[b].kind, cells });
        proof {
            assert(next@[b as int]@.cells =~= spec_edge_all(gview(g))[b as int].cells);
            assert(next@[b as int]@ == spec_edge_all(gview(g))[b as int]);
            assert forall|j: int| 0 <= j < b + 1 implies next@[j]@ == spec_edge_all(
                gview(g),
            )[j] by {
                if j < b {
                    assert(next@[j] == prevn[j]);
                }
            }
        }
        b = b + 1;
    }
    proof {
        assert forall|j: int| 0 <= j < next@.len() implies gview(next)[j] == next@[j]@ by {}
        assert(gview(next) =~= spec_edge_all(gview(g)));
    }
    next
}

impl Sim {
    /// Advance one clock cycle: draw the cycle's `rng_state` word, run
    /// combinational settling to a fixed point, and on convergence
    /// advance the cycle counter and apply the edge phase. When settling
    /// exceeds the bound the cycle aborts with a non-convergence fault
    /// naming a node that changed on the last iteration, leaving the
    /// counter untouched.
    pub fn sim_cycle(&mut self) -> (r: Result<(), SimFault>)
        requires
            old(self).cycle < u64::MAX,
        ensures
            final(self)@ == spec_cycle(old(self)@),
            r == (if spec_cycle_converges(old(self)@) {
                Result::<(), SimFault>::Ok(())
            } else {
                Result::<(), SimFault>::Err(
                    SimFault::NonConvergence { node: spec_cycle_culprit(old(self)@) },
                )
            }),
    {
        let w = chacha8_next(&mut self.rng);
        self.rng_state = w;
        let mut g: Vec<Bucket> = Vec::new();
        core::mem::swap(&mut g, &mut self.graph);
        let d = init_dirty(&g);
        let c0 = init_dirty(&g);
        let (g1, res) = settle(g, d, c0, self.settle_limit);
        match res {
            Err(node) => {
                self.graph = g1;
                Err(SimFault::NonConvergence { node })
            },
            Ok(()) => {
                self.cycle = self.cycle + 1;
                let g2 = edge_all(g1);
                self.graph = g2;
                Ok(())
            },
        }
    }
}

} // verus!
