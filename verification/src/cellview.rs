//! Mathematical views of the cells and of the graph, and the spec-level
//! port lookup that mirrors how a cell observes its peers.

use vstd::prelude::*;

use crate::ports::{NodeId, Port, ReqPort, RspPort};

verus! {

/// View of a `Src` cell: a finite ordered buffer, the index of the next
/// item to offer, and the producer endpoint.
pub ghost struct SrcV {
    pub buffer: Seq<u64>,
    pub index: int,
    pub req: ReqPort,
}

/// View of a `Sink` cell: its name, the log of received values, and the
/// consumer endpoint.
pub ghost struct SinkV {
    pub name: Seq<char>,
    pub rec: Seq<u64>,
    pub rsp: RspPort,
}

/// View of a `Fifo` cell: the queued values (front first), the bound on
/// their number, the zero-cycle flag, and the two endpoints.
pub ghost struct FifoV {
    pub buffer: Seq<u64>,
    pub capacity: int,
    pub zero_cycle: bool,
    pub rsp: RspPort,
    pub req: ReqPort,
}

/// View of a `Fork` cell: one waiting flag per output, the consumer
/// endpoint, and one producer endpoint per output.
pub ghost struct ForkV {
    pub waiting: Seq<bool>,
    pub rsp: RspPort,
    pub req: Seq<ReqPort>,
}

/// View of any cell.
pub ghost enum CellV {
    Src(SrcV),
    Sink(SinkV),
    Fifo(FifoV),
    Fork(ForkV),
}

/// The concrete type of the cells of one bucket.
#[derive(Debug, Copy, Clone, PartialEq, Eq, Structural)]
pub enum CellKind {
    Src,
    Sink,
    Fifo,
    Fork,
}

/// View of one type bucket: its cell type and the cells it holds.
pub ghost struct BucketV {
    pub kind: CellKind,
    pub cells: Seq<CellV>,
}

/// View of the whole graph: the buckets in creation order.
pub type GraphV = Seq<BucketV>;

/// A copy of the port record at one endpoint, of either flavour.
#[derive(Debug, Copy, Clone, PartialEq, Eq, Structural)]
pub enum AnyPort {
    Req(ReqPort),
    Rsp(RspPort),
}

pub open spec fn cell_kind(c: CellV) -> CellKind {
    match c {
        CellV::Src(_) => CellKind::Src,
        CellV::Sink(_) => CellKind::Sink,
        CellV::Fifo(_) => CellKind::Fifo,
        CellV::Fork(_) => CellKind::Fork,
    }
}

/// The peer addresses of every port a cell owns, in the cell's own local
/// port order.
pub open spec fn cell_ports(c: CellV) -> Seq<Port> {
    match c {
        CellV::Src(s) => seq![s.req.port],
        CellV::Sink(s) => seq![s.rsp.port],
        CellV::Fifo(f) => seq![f.rsp.port, f.req.port],
        CellV::Fork(f) => seq![f.rsp.port] + f.req.map_values(|r: ReqPort| r.port),
    }
}

/// The port record a cell exposes at local index `i`, if any. A `Src` or
/// `Sink` owns a single port and exposes it at every index.
pub open spec fn cell_port_at(c: CellV, i: int) -> Option<AnyPort> {
    match c {
        CellV::Src(s) => Some(AnyPort::Req(s.req)),
        CellV::Sink(s) => Some(AnyPort::Rsp(s.rsp)),
        CellV::Fifo(f) => if i == 0 {
            Some(AnyPort::Rsp(f.rsp))
        } else if i == 1 {
            Some(AnyPort::Req(f.req))
        } else {
            None
        },
        CellV::Fork(f) => if i == 0 {
            Some(AnyPort::Rsp(f.rsp))
        } else if 1 <= i && i <= f.req.len() {
            Some(AnyPort::Req(f.req[i - 1]))
        } else {
            None
        },
    }
}

/// The port record addressed by `p`, if `p` is connected, in range, and
/// the endpoint exists.
pub open spec fn spec_port_at(g: GraphV, p: Port) -> Option<AnyPort> {
    match p {
        Port::Z => None,
        Port::Wire { node, port } => if node.ntype < g.len()
            && node.index < g[node.ntype as int].cells.len() {
            cell_port_at(g[node.ntype as int].cells[node.index as int], port as int)
        } else {
            None
        },
    }
}

/// The producer record at the far end of `p`, when the far end is a
/// producer endpoint; any mismatch reads as a disconnected wire.
pub open spec fn spec_peer_req(g: GraphV, p: Port) -> Option<ReqPort> {
    match spec_port_at(g, p) {
        Some(AnyPort::Req(q)) => Some(q),
        _ => None,
    }
}

/// The consumer record at the far end of `p`, when the far end is a
/// consumer endpoint.
pub open spec fn spec_peer_rsp(g: GraphV, p: Port) -> Option<RspPort> {
    match spec_port_at(g, p) {
        Some(AnyPort::Rsp(r)) => Some(r),
        _ => None,
    }
}

/// Mapping a function over a sequence commutes with updating one
/// element.
pub proof fn lemma_map_values_update<A, B>(s: Seq<A>, i: int, a: A, f: spec_fn(A) -> B)
    requires
        0 <= i < s.len(),
    ensures
        s.update(i, a).map_values(f) == s.map_values(f).update(i, f(a)),
{
    assert(s.update(i, a).map_values(f) =~= s.map_values(f).update(i, f(a)));
}

/// Mapping a function over a sequence commutes with pushing an element.
pub proof fn lemma_map_values_push<A, B>(s: Seq<A>, a: A, f: spec_fn(A) -> B)
    ensures
        s.push(a).map_values(f) == s.map_values(f).push(f(a)),
{
    assert(s.push(a).map_values(f) =~= s.map_values(f).push(f(a)));
}

/// The `valid` flag observed through `p`, with absence reading as false.
pub open spec fn observed_valid(g: GraphV, p: Port) -> bool {
    match spec_peer_req(g, p) {
        Some(q) => q.valid,
        None => false,
    }
}

/// The `data` value observed through `p`, with absence reading as the
/// canonical default.
pub open spec fn observed_data(g: GraphV, p: Port) -> u64 {
    match spec_peer_req(g, p) {
        Some(q) => q.data,
        None => 0,
    }
}

/// The `ready` flag observed through `p`, with absence reading as false.
pub open spec fn observed_ready(g: GraphV, p: Port) -> bool {
    match spec_peer_rsp(g, p) {
        Some(r) => r.ready,
        None => false,
    }
}

} // verus!
