//! The guarantees the kernel and the reference cells give, stated and
//! proved over the same spec functions the executable contracts use.

use vstd::prelude::*;

use crate::cell::{cell_changed, cell_csim, cell_edge};
use crate::cellview::{
    observed_data, observed_ready, observed_valid, spec_peer_req, spec_peer_rsp, CellV, GraphV,
};
use crate::fifo::fifo_edge;
use crate::ports::spec_transfer;
use crate::sim::{
    acc_bucket, acc_graph, acc_node, bucket_step, dirty_all_empty, dirty_wf, empty_dirty,
    full_dirty, graph_step, mark_node, mark_ports, spec_changed_set, spec_cycle, spec_next_dirty,
    spec_settle,
    DirtyV, SimV,
};
use crate::sink::sink_edge;
use crate::source::src_edge;

verus! {

// ---------------------------------------------------------------------
// Settling convergence
// ---------------------------------------------------------------------

proof fn lemma_acc_bucket_unchanged(acc: DirtyV, g: GraphV, d: DirtyV, b: int, i: int)
    requires
        0 <= b < g.len(),
        forall|x: int|
            0 <= x < g[b].cells.len() && d[b].contains(x) ==> !cell_changed(
                #[trigger] g[b].cells[x],
                g,
            ),
    ensures
        acc_bucket(acc, g, d, b, i) == acc,
    decreases g[b].cells.len() - i,
{
    if 0 <= i < g[b].cells.len() {
        assert(acc_node(acc, g, d, b, i) == acc);
        lemma_acc_bucket_unchanged(acc, g, d, b, i + 1);
    }
}

proof fn lemma_acc_graph_unchanged(acc: DirtyV, g: GraphV, d: DirtyV, b: int)
    requires
        forall|b2: int, x: int|
            0 <= b2 < g.len() && 0 <= x < g[b2].cells.len() && d[b2].contains(x)
                ==> !cell_changed(#[trigger] g[b2].cells[x], g),
    ensures
        acc_graph(acc, g, d, b) == acc,
    decreases g.len() - b,
{
    if 0 <= b < g.len() {
        lemma_acc_bucket_unchanged(acc, g, d, b, 0);
        lemma_acc_graph_unchanged(acc, g, d, b + 1);
    }
}

/// An evaluation that leaves a cell's ports unchanged leaves the cell
/// unchanged.
proof fn lemma_unchanged_cell_fixed(c: CellV, g: GraphV)
    requires
        !cell_changed(c, g),
    ensures
        cell_csim(c, g) == c,
{
}

/// Settling convergence: once an iteration finds every dirty cell at a
/// fixed point of its combinational evaluation — as monotone cells
/// reach when their observed inputs stop changing — the next dirty sets
/// are empty and the settling loop converges, leaving the graph as it
/// stands.
pub proof fn lemma_fixed_point_settles(g: GraphV, d: DirtyV, ch: DirtyV, fuel: nat)
    requires
        d.len() == g.len(),
        fuel >= 1,
        forall|b: int, x: int|
            0 <= b < g.len() && 0 <= x < g[b].cells.len() && d[b].contains(x)
                ==> !cell_changed(#[trigger] g[b].cells[x], g),
        forall|b: int, x: int|
            0 <= b < d.len() && (#[trigger] d[b].contains(x)) ==> 0 <= x < g[b].cells.len(),
    ensures
        spec_settle(g, d, ch, fuel).converged,
        spec_settle(g, d, ch, fuel).graph == g,
    decreases fuel,
{
    if dirty_all_empty(d) {
    } else {
        assert forall|b: int| 0 <= b < g.len() implies graph_step(g, d)[b] == g[b] by {
            assert forall|i: int|
                0 <= i < g[b].cells.len() implies bucket_step(g[b], g, d[b]).cells[i] == g[b].cells[i] by {
                if d[b].contains(i) {
                    lemma_unchanged_cell_fixed(g[b].cells[i], g);
                }
            }
            assert(bucket_step(g[b], g, d[b]).cells =~= g[b].cells);
        }
        assert(graph_step(g, d) =~= g);
        lemma_acc_graph_unchanged(empty_dirty(g), g, d, 0);
        assert(dirty_all_empty(spec_next_dirty(g, d)));
        assert(spec_settle(g, d, ch, fuel) == spec_settle(
            graph_step(g, d),
            spec_next_dirty(g, d),
            spec_changed_set(g, d),
            (fuel - 1) as nat,
        ));
        assert(spec_settle(
            graph_step(g, d),
            spec_next_dirty(g, d),
            spec_changed_set(g, d),
            (fuel - 1) as nat,
        ).converged);
    }
}

proof fn lemma_mark_node_wf(g: GraphV, acc: DirtyV, node: crate::ports::NodeId)
    requires
        dirty_wf(g, acc),
    ensures
        dirty_wf(g, mark_node(acc, g, node)),
{
}

proof fn lemma_mark_ports_wf(g: GraphV, acc: DirtyV, ports: Seq<crate::ports::Port>)
    requires
        dirty_wf(g, acc),
    ensures
        dirty_wf(g, mark_ports(acc, g, ports)),
    decreases ports.len(),
{
    if ports.len() > 0 {
        let acc1 = match ports[0] {
            crate::ports::Port::Wire { node, port } => mark_node(acc, g, node),
            crate::ports::Port::Z => acc,
        };
        match ports[0] {
            crate::ports::Port::Wire { node, port } => lemma_mark_node_wf(g, acc, node),
            crate::ports::Port::Z => (),
        }
        lemma_mark_ports_wf(g, acc1, ports.skip(1));
    }
}

proof fn lemma_acc_node_wf(g: GraphV, acc: DirtyV, d: DirtyV, b: int, i: int)
    requires
        dirty_wf(g, acc),
        0 <= b < g.len(),
        0 <= i < g[b].cells.len(),
    ensures
        dirty_wf(g, acc_node(acc, g, d, b, i)),
{
    if d[b].contains(i) && cell_changed(g[b].cells[i], g) {
        let acc1 = acc.update(b, acc[b].insert(i));
        assert(dirty_wf(g, acc1));
        lemma_mark_ports_wf(g, acc1, crate::cellview::cell_ports(cell_csim(g[b].cells[i], g)));
    }
}

proof fn lemma_acc_bucket_wf(g: GraphV, acc: DirtyV, d: DirtyV, b: int, i: int)
    requires
        dirty_wf(g, acc),
        0 <= b < g.len(),
    ensures
        dirty_wf(g, acc_bucket(acc, g, d, b, i)),
    decreases g[b].cells.len() - i,
{
    if 0 <= i < g[b].cells.len() {
        lemma_acc_node_wf(g, acc, d, b, i);
        lemma_acc_bucket_wf(g, acc_node(acc, g, d, b, i), d, b, i + 1);
    }
}

proof fn lemma_acc_graph_wf(g: GraphV, acc: DirtyV, d: DirtyV, b: int)
    requires
        dirty_wf(g, acc),
    ensures
        dirty_wf(g, acc_graph(acc, g, d, b)),
    decreases g.len() - b,
{
    if 0 <= b < g.len() {
        lemma_acc_bucket_wf(g, acc, d, b, 0);
        lemma_acc_graph_wf(g, acc_bucket(acc, g, d, b, 0), d, b + 1);
    }
}

/// The dirty sets of the next iteration only hold indices of nodes that
/// exist, and are finite.
proof fn lemma_next_dirty_wf(g: GraphV, d: DirtyV)
    ensures
        dirty_wf(g, spec_next_dirty(g, d)),
{
    assert(dirty_wf(g, empty_dirty(g)));
    lemma_acc_graph_wf(g, empty_dirty(g), d, 0);
}

/// A cell whose combinational evaluation reads only its own sequential
/// state: a source, a sink, or a fifo not in zero-cycle mode. Its ports
/// settle after a single evaluation, whatever its peers do.
pub open spec fn cell_local(c: CellV) -> bool {
    match c {
        CellV::Src(_) => true,
        CellV::Sink(_) => true,
        CellV::Fifo(f) => !f.zero_cycle,
        CellV::Fork(_) => false,
    }
}

pub open spec fn graph_local(g: GraphV) -> bool {
    forall|b: int, i: int|
        0 <= b < g.len() && 0 <= i < g[b].cells.len() ==> cell_local(#[trigger] g[b].cells[i])
}

/// One evaluation of a local cell is a fixed point: evaluating it again,
/// against any graph, changes nothing.
proof fn lemma_local_csim_stable(c: CellV, g1: GraphV, g2: GraphV)
    requires
        cell_local(c),
    ensures
        !cell_changed(cell_csim(c, g1), g2),
{
}

/// Settling convergence for monotone graphs: when every cell's
/// combinational evaluation is a function of its own sequential state —
/// as for every source, sink, and non-zero-cycle fifo — the first
/// iteration settles every node and the second confirms it, so the
/// settling loop converges under any bound of at least two iterations,
/// whatever the wiring; the settled graph is the one-step evaluation of
/// the starting graph.
pub proof fn lemma_local_graph_settles(g: GraphV, fuel: nat)
    requires
        graph_local(g),
        fuel >= 2,
    ensures
        spec_settle(g, full_dirty(g), full_dirty(g), fuel).converged,
        spec_settle(g, full_dirty(g), full_dirty(g), fuel).graph == graph_step(g, full_dirty(g)),
{
    let d0 = full_dirty(g);
    if dirty_all_empty(d0) {
        assert forall|b: int| 0 <= b < g.len() implies graph_step(g, d0)[b] == g[b] by {
            assert(d0[b] == vstd::set_lib::set_int_range(0, g[b].cells.len() as int));
            assert(bucket_step(g[b], g, d0[b]).cells =~= g[b].cells);
        }
        assert(graph_step(g, d0) =~= g);
    } else {
        let g1 = graph_step(g, d0);
        let nd = spec_next_dirty(g, d0);
        lemma_next_dirty_wf(g, d0);
        assert forall|b: int, x: int|
            0 <= b < g1.len() && 0 <= x < g1[b].cells.len() && nd[b].contains(x)
                implies !cell_changed(#[trigger] g1[b].cells[x], g1) by {
            assert(d0[b] == vstd::set_lib::set_int_range(0, g[b].cells.len() as int));
            assert(d0[b].contains(x));
            assert(g1[b].cells[x] == cell_csim(g[b].cells[x], g));
            lemma_local_csim_stable(g[b].cells[x], g, g1);
        }
        lemma_fixed_point_settles(g1, nd, spec_changed_set(g, d0), (fuel - 1) as nat);
        assert(spec_settle(g, d0, d0, fuel) == spec_settle(
            g1,
            nd,
            spec_changed_set(g, d0),
            (fuel - 1) as nat,
        ));
    }
}

// ---------------------------------------------------------------------
// Snapshot isolation
// ---------------------------------------------------------------------

/// Snapshot isolation: within one settling iteration, a node's next
/// value is a function of the pre-iteration graph alone — it never
/// observes another node's same-iteration write, so evaluation order
/// cannot matter.
pub proof fn lemma_snapshot_isolation(g: GraphV, d: DirtyV, b: int, i: int)
    requires
        0 <= b < g.len(),
        0 <= i < g[b].cells.len(),
    ensures
        graph_step(g, d)[b].cells[i] == (if d[b].contains(i) {
            cell_csim(g[b].cells[i], g)
        } else {
            g[b].cells[i]
        }),
{
}

// ---------------------------------------------------------------------
// Transfer semantics
// ---------------------------------------------------------------------

/// Transfer semantics for `Src`: during the edge phase its index
/// advances iff its wire carried a transfer — both endpoints' settled
/// state had `valid` and `ready` high.
pub proof fn lemma_transfer_src(s: crate::cellview::SrcV, g: GraphV)
    requires
        s.req.valid ==> s.index < s.buffer.len(),
    ensures
        ({
            let t = match spec_peer_rsp(g, s.req.port) {
                Some(p) => spec_transfer(s.req, p),
                None => false,
            };
            src_edge(s, g) == (if t {
                crate::cellview::SrcV { index: s.index + 1, ..s }
            } else {
                s
            })
        }),
{
}

/// Transfer semantics for `Sink`: during the edge phase it logs the
/// peer's data iff its wire carried a transfer.
pub proof fn lemma_transfer_sink(s: crate::cellview::SinkV, g: GraphV)
    ensures
        ({
            let t = match spec_peer_req(g, s.rsp.port) {
                Some(q) => spec_transfer(q, s.rsp),
                None => false,
            };
            sink_edge(s, g) == (if t {
                crate::cellview::SinkV {
                    rec: s.rec.push(observed_data(g, s.rsp.port)),
                    ..s
                }
            } else {
                s
            })
        }),
{
}

/// Transfer semantics for `Fifo`: during the edge phase the front value
/// leaves iff the output wire carried a transfer, and the incoming value
/// enters iff the input wire carried one — except that a zero-cycle
/// bypass, a transfer out while the buffer was empty, forwarded the
/// incoming value combinationally: it is neither pushed nor popped.
pub proof fn lemma_transfer_fifo(f: crate::cellview::FifoV, g: GraphV)
    ensures
        ({
            let out_t = match spec_peer_rsp(g, f.req.port) {
                Some(p) => spec_transfer(f.req, p),
                None => false,
            };
            let in_t = match spec_peer_req(g, f.rsp.port) {
                Some(q) => spec_transfer(q, f.rsp),
                None => false,
            };
            let bypass = out_t && f.zero_cycle && f.buffer.len() == 0;
            let b1 = if out_t && f.buffer.len() > 0 {
                f.buffer.drop_first()
            } else {
                f.buffer
            };
            fifo_edge(f, g).buffer == (if in_t && !bypass {
                b1.push(observed_data(g, f.rsp.port))
            } else {
                b1
            })
        }),
{
}

// ---------------------------------------------------------------------
// Determinism
// ---------------------------------------------------------------------

/// The state after `n` whole cycles.
pub open spec fn spec_run(v: SimV, n: nat) -> SimV
    decreases n,
{
    if n == 0 {
        v
    } else {
        spec_cycle(spec_run(v, (n - 1) as nat))
    }
}

/// Determinism: two simulators that agree on seed, pseudo-random
/// position, counters, settling bound and graph evolve identically —
/// after any number of cycles their states coincide.
pub proof fn lemma_determinism(a: SimV, b: SimV, n: nat)
    requires
        a.seed == b.seed,
        a.drawn == b.drawn,
        a.rng_state == b.rng_state,
        a.cycle == b.cycle,
        a.limit == b.limit,
        a.graph == b.graph,
    ensures
        spec_run(a, n) == spec_run(b, n),
{
    assert(a == b);
}

// ---------------------------------------------------------------------
// Fifo capacity bound
// ---------------------------------------------------------------------

/// A fifo holds no more than its capacity; other cells are unconstrained.
pub open spec fn cell_cap_ok(c: CellV) -> bool {
    match c {
        CellV::Fifo(f) => f.buffer.len() <= f.capacity,
        _ => true,
    }
}

/// A fifo's `ready` agrees with its fill level, as combinational
/// evaluation leaves it; other cells are unconstrained.
pub open spec fn cell_ready_ok(c: CellV) -> bool {
    match c {
        CellV::Fifo(f) => f.rsp.ready == (f.buffer.len() < f.capacity),
        _ => true,
    }
}

pub open spec fn graph_cap_ok(g: GraphV) -> bool {
    forall|b: int, i: int|
        0 <= b < g.len() && 0 <= i < g[b].cells.len() ==> cell_cap_ok(#[trigger] g[b].cells[i])
}

pub open spec fn graph_ready_ok(g: GraphV) -> bool {
    forall|b: int, i: int|
        0 <= b < g.len() && 0 <= i < g[b].cells.len() ==> cell_ready_ok(#[trigger] g[b].cells[i])
}

proof fn lemma_csim_cap(c: CellV, g: GraphV)
    ensures
        cell_cap_ok(cell_csim(c, g)) == cell_cap_ok(c),
        cell_ready_ok(cell_csim(c, g)),
{
}

proof fn lemma_step_cap(g: GraphV, d: DirtyV)
    requires
        graph_cap_ok(g),
    ensures
        graph_cap_ok(graph_step(g, d)),
        graph_ready_ok(g) ==> graph_ready_ok(graph_step(g, d)),
        !dirty_all_empty(full_dirty(g)) && d == full_dirty(g) ==> graph_ready_ok(graph_step(g, d)),
{
    assert forall|b: int, i: int|
        0 <= b < graph_step(g, d).len() && 0 <= i < graph_step(g, d)[b].cells.len() implies cell_cap_ok(
        #[trigger] graph_step(g, d)[b].cells[i],
    ) by {
        if d[b].contains(i) {
            lemma_csim_cap(g[b].cells[i], g);
        }
    }
    if graph_ready_ok(g) {
        assert forall|b: int, i: int|
            0 <= b < graph_step(g, d).len() && 0 <= i < graph_step(g, d)[b].cells.len() implies cell_ready_ok(
            #[trigger] graph_step(g, d)[b].cells[i],
        ) by {
            if d[b].contains(i) {
                lemma_csim_cap(g[b].cells[i], g);
            }
        }
    }
    if d == full_dirty(g) {
        assert forall|b: int, i: int|
            0 <= b < graph_step(g, d).len() && 0 <= i < graph_step(g, d)[b].cells.len() implies cell_ready_ok(
            #[trigger] graph_step(g, d)[b].cells[i],
        ) by {
            assert(full_dirty(g)[b] == vstd::set_lib::set_int_range(0, g[b].cells.len() as int));
            assert(d[b].contains(i));
            lemma_csim_cap(g[b].cells[i], g);
        }
    }
}

proof fn lemma_settle_cap(g: GraphV, d: DirtyV, ch: DirtyV, fuel: nat)
    requires
        graph_cap_ok(g),
        graph_ready_ok(g),
    ensures
        graph_cap_ok(spec_settle(g, d, ch, fuel).graph),
        graph_ready_ok(spec_settle(g, d, ch, fuel).graph),
    decreases fuel,
{
    if dirty_all_empty(d) {
    } else if fuel == 0 {
    } else {
        lemma_step_cap(g, d);
        lemma_settle_cap(
            graph_step(g, d),
            spec_next_dirty(g, d),
            spec_changed_set(g, d),
            (fuel - 1) as nat,
        );
    }
}

proof fn lemma_edge_cap(c: CellV, g: GraphV)
    requires
        cell_cap_ok(c),
        cell_ready_ok(c),
    ensures
        cell_cap_ok(cell_edge(c, g)),
{
}

/// Fifo capacity bound: when every fifo in the graph is within its
/// capacity, it still is after a whole cycle — settling never touches a
/// buffer, and the edge phase pushes only while the settled `ready`
/// attests room. The bound therefore holds at every observation point
/// between cycles.
pub proof fn lemma_fifo_capacity(v: SimV)
    requires
        graph_cap_ok(v.graph),
    ensures
        graph_cap_ok(spec_cycle(v).graph),
{
    let d0 = full_dirty(v.graph);
    let out = spec_settle(v.graph, d0, d0, v.limit);
    if dirty_all_empty(d0) {
        assert forall|b: int, i: int|
            0 <= b < v.graph.len() && 0 <= i < v.graph[b].cells.len() implies cell_ready_ok(
            #[trigger] v.graph[b].cells[i],
        ) by {
            assert(d0[b] == vstd::set_lib::set_int_range(0, v.graph[b].cells.len() as int));
            assert(d0[b].contains(i));
            assert(d0[b] == Set::<int>::empty());
        }
        lemma_settle_cap(v.graph, d0, d0, v.limit);
    } else if v.limit == 0 {
        assert(out.graph == v.graph);
    } else {
        lemma_step_cap(v.graph, d0);
        lemma_settle_cap(
            graph_step(v.graph, d0),
            spec_next_dirty(v.graph, d0),
            spec_changed_set(v.graph, d0),
            (v.limit - 1) as nat,
        );
        assert(out == spec_settle(
            graph_step(v.graph, d0),
            spec_next_dirty(v.graph, d0),
            spec_changed_set(v.graph, d0),
            (v.limit - 1) as nat,
        ));
    }
    if out.converged {
        assert forall|b: int, i: int|
            0 <= b < spec_cycle(v).graph.len() && 0 <= i < spec_cycle(v).graph[b].cells.len() implies cell_cap_ok(
            #[trigger] spec_cycle(v).graph[b].cells[i],
        ) by {
            lemma_edge_cap(out.graph[b].cells[i], out.graph);
        }
    }
}

/// The capacity bound holds after any number of cycles.
pub proof fn lemma_fifo_capacity_run(v: SimV, n: nat)
    requires
        graph_cap_ok(v.graph),
    ensures
        graph_cap_ok(spec_run(v, n).graph),
    decreases n,
{
    if n > 0 {
        lemma_fifo_capacity_run(v, (n - 1) as nat);
        lemma_fifo_capacity(spec_run(v, (n - 1) as nat));
    }
}

// ---------------------------------------------------------------------
// Fifo conservation
// ---------------------------------------------------------------------

/// One edge-phase transition of a fifo's buffer, as the flags it
/// observed: whether a transfer left on the output wire, whether one
/// entered on the input wire, and the entering value.
pub ghost struct FifoOp {
    pub pop: bool,
    pub push: bool,
    pub data: u64,
}

/// The buffer after one edge transition: on a zero-cycle bypass — a
/// transfer out while the buffer was empty — nothing is stored;
/// otherwise the leaving value is removed from the front and the
/// entering value appended at the back.
pub open spec fn fifo_op_step(buf: Seq<u64>, op: FifoOp, zero_cycle: bool) -> Seq<u64> {
    if op.pop && zero_cycle && buf.len() == 0 {
        buf
    } else {
        let b1 = if op.pop && buf.len() > 0 {
            buf.drop_first()
        } else {
            buf
        };
        if op.push {
            b1.push(op.data)
        } else {
            b1
        }
    }
}

/// The buffer after a sequence of edge transitions.
pub open spec fn fifo_run_ops(buf: Seq<u64>, ops: Seq<FifoOp>, zero_cycle: bool) -> Seq<u64>
    decreases ops.len(),
{
    if ops.len() == 0 {
        buf
    } else {
        fifo_run_ops(fifo_op_step(buf, ops[0], zero_cycle), ops.skip(1), zero_cycle)
    }
}

/// The queued value one transition delivers on the output: the front of
/// the buffer, or, on a zero-cycle bypass with an accepted input, the
/// value passed straight through. A transfer out of an empty buffer
/// whose input was not accepted (a full zero-cycle fifo of capacity
/// zero) re-offers the upstream value without consuming it and delivers
/// no queued value.
pub open spec fn op_delivers(buf: Seq<u64>, op: FifoOp, zero_cycle: bool) -> Seq<u64> {
    if op.pop {
        if buf.len() > 0 {
            seq![buf[0]]
        } else if zero_cycle && op.push {
            seq![op.data]
        } else {
            Seq::empty()
        }
    } else {
        Seq::empty()
    }
}

/// The values that left the fifo, in the order they left.
pub open spec fn popped_values(buf: Seq<u64>, ops: Seq<FifoOp>, zero_cycle: bool) -> Seq<u64>
    decreases ops.len(),
{
    if ops.len() == 0 {
        Seq::empty()
    } else {
        op_delivers(buf, ops[0], zero_cycle) + popped_values(
            fifo_op_step(buf, ops[0], zero_cycle),
            ops.skip(1),
            zero_cycle,
        )
    }
}

/// The values that entered the fifo, in the order they entered.
pub open spec fn pushed_values(ops: Seq<FifoOp>) -> Seq<u64>
    decreases ops.len(),
{
    if ops.len() == 0 {
        Seq::empty()
    } else {
        let here: Seq<u64> = if ops[0].push {
            seq![ops[0].data]
        } else {
            Seq::empty()
        };
        here + pushed_values(ops.skip(1))
    }
}

/// An edge transition of a fifo, in either mode, is exactly one
/// `fifo_op_step`, with the flags given by the transfers of its two
/// wires in the settled graph.
pub proof fn lemma_fifo_edge_is_op(f: crate::cellview::FifoV, g: GraphV)
    ensures
        fifo_edge(f, g).buffer == fifo_op_step(
            f.buffer,
            FifoOp {
                pop: f.req.valid && observed_ready(g, f.req.port),
                push: observed_valid(g, f.rsp.port) && f.rsp.ready,
                data: observed_data(g, f.rsp.port),
            },
            f.zero_cycle,
        ),
{
}

/// Fifo conservation, in either mode: what has left the fifo, in order
/// — including values passed straight through by a zero-cycle bypass —
/// followed by what it still holds, is exactly what it started with
/// followed by what entered, in order.
pub proof fn lemma_fifo_conservation(buf: Seq<u64>, ops: Seq<FifoOp>, zero_cycle: bool)
    ensures
        popped_values(buf, ops, zero_cycle) + fifo_run_ops(buf, ops, zero_cycle) == buf
            + pushed_values(ops),
    decreases ops.len(),
{
    if ops.len() == 0 {
        assert(popped_values(buf, ops, zero_cycle) + fifo_run_ops(buf, ops, zero_cycle) =~= buf
            + pushed_values(ops));
    } else {
        let op = ops[0];
        let b1 = fifo_op_step(buf, op, zero_cycle);
        lemma_fifo_conservation(b1, ops.skip(1), zero_cycle);
        let here_pop = op_delivers(buf, op, zero_cycle);
        let here_push: Seq<u64> = if op.push {
            seq![op.data]
        } else {
            Seq::empty()
        };
        assert(here_pop + b1 =~= buf + here_push);
        assert(popped_values(buf, ops, zero_cycle) + fifo_run_ops(buf, ops, zero_cycle)
            =~= here_pop + (popped_values(b1, ops.skip(1), zero_cycle) + fifo_run_ops(
            b1,
            ops.skip(1),
            zero_cycle,
        )));
        assert(here_pop + (b1 + pushed_values(ops.skip(1))) =~= (here_pop + b1) + pushed_values(
            ops.skip(1),
        ));
        assert((buf + here_push) + pushed_values(ops.skip(1)) =~= buf + pushed_values(ops));
    }
}

/// Starting empty, in either mode, the values a fifo has delivered are
/// a prefix of the values that entered it, in the same order: values
/// leave in FIFO order, and no value leaves before it entered.
pub proof fn lemma_fifo_popped_is_prefix(ops: Seq<FifoOp>, zero_cycle: bool)
    ensures
        popped_values(Seq::empty(), ops, zero_cycle) == pushed_values(ops).take(
            popped_values(Seq::<u64>::empty(), ops, zero_cycle).len() as int,
        ),
{
    lemma_fifo_conservation(Seq::empty(), ops, zero_cycle);
    assert(popped_values(Seq::empty(), ops, zero_cycle) =~= pushed_values(ops).take(
        popped_values(Seq::<u64>::empty(), ops, zero_cycle).len() as int,
    ));
}

} // verus!
