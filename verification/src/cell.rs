//! The closed set of cells, the type-bucketed storage they live in, and
//! the port lookup a cell uses to observe its peers.

use vstd::pervasive::VecAdditionalExecFns;
use vstd::prelude::*;

use crate::cellview::{
    cell_kind, cell_port_at, cell_ports, spec_peer_req, spec_peer_rsp, spec_port_at, AnyPort,
    BucketV, CellKind, CellV, GraphV,
};
use crate::fifo::{fifo_changed, fifo_csim, fifo_edge, Fifo};
use crate::fork::{fork_changed, fork_csim, fork_edge, Fork};
use crate::ports::{Port, ReqPort, RspPort};
use crate::sink::{sink_changed, sink_csim, sink_edge, Sink};
use crate::source::{src_changed, src_csim, src_edge, Src};

verus! {

/// Any cell of the library. The kernel stores and steps cells through
/// this closed set; each variant's behaviour lives with its own type.
pub enum Cell {
    Src(Src),
    Sink(Sink),
    Fifo(Fifo),
    Fork(Fork),
}

impl View for Cell {
    type V = CellV;

    open spec fn view(&self) -> CellV {
        match self {
            Cell::Src(c) => CellV::Src(c@),
            Cell::Sink(c) => CellV::Sink(c@),
            Cell::Fifo(c) => CellV::Fifo(c@),
            Cell::Fork(c) => CellV::Fork(c@),
        }
    }
}

/// One type bucket: a dense sequence of cells of a single concrete type.
pub struct Bucket {
    pub kind: CellKind,
    pub cells: Vec<Cell>,
}

impl View for Bucket {
    type V = BucketV;

    open spec fn view(&self) -> BucketV {
        BucketV { kind: self.kind, cells: self.cells@.map_values(|c: Cell| c@) }
    }
}

/// The view of the whole graph.
pub open spec fn gview(g: Vec<Bucket>) -> GraphV {
    g@.map_values(|b: Bucket| b@)
}

/// One combinational evaluation of any cell against the graph `g`.
pub open spec fn cell_csim(c: CellV, g: GraphV) -> CellV {
    match c {
        CellV::Src(s) => CellV::Src(src_csim(s)),
        CellV::Sink(s) => CellV::Sink(sink_csim(s)),
        CellV::Fifo(f) => CellV::Fifo(fifo_csim(f, g)),
        CellV::Fork(f) => CellV::Fork(fork_csim(f, g)),
    }
}

/// Whether that evaluation changes an observable port field.
pub open spec fn cell_changed(c: CellV, g: GraphV) -> bool {
    match c {
        CellV::Src(s) => src_changed(s),
        CellV::Sink(s) => sink_changed(s),
        CellV::Fifo(f) => fifo_changed(f, g),
        CellV::Fork(f) => fork_changed(f, g),
    }
}

/// The edge-phase transition of any cell against the settled graph `g`.
pub open spec fn cell_edge(c: CellV, g: GraphV) -> CellV {
    match c {
        CellV::Src(s) => CellV::Src(src_edge(s, g)),
        CellV::Sink(s) => CellV::Sink(sink_edge(s, g)),
        CellV::Fifo(f) => CellV::Fifo(fifo_edge(f, g)),
        CellV::Fork(f) => CellV::Fork(fork_edge(f, g)),
    }
}

/// Writing peer address `addr` into local port `i` of a cell: the
/// updated cell, and whether `i` addresses a port of this cell.
pub open spec fn cell_set_peer(c: CellV, i: int, addr: Port) -> (CellV, bool) {
    match c {
        CellV::Src(s) => if i == 0 {
            (
                CellV::Src(
                    crate::cellview::SrcV {
                        req: ReqPort { valid: s.req.valid, data: s.req.data, port: addr },
                        ..s
                    },
                ),
                true,
            )
        } else {
            (c, false)
        },
        CellV::Sink(s) => if i == 0 {
            (
                CellV::Sink(
                    crate::cellview::SinkV { rsp: RspPort { ready: s.rsp.ready, port: addr }, ..s },
                ),
                true,
            )
        } else {
            (c, false)
        },
        CellV::Fifo(f) => if i == 0 {
            (
                CellV::Fifo(
                    crate::cellview::FifoV { rsp: RspPort { ready: f.rsp.ready, port: addr }, ..f },
                ),
                true,
            )
        } else if i == 1 {
            (
                CellV::Fifo(
                    crate::cellview::FifoV {
                        req: ReqPort { valid: f.req.valid, data: f.req.data, port: addr },
                        ..f
                    },
                ),
                true,
            )
        } else {
            (c, false)
        },
        CellV::Fork(f) => if i == 0 {
            (
                CellV::Fork(
                    crate::cellview::ForkV { rsp: RspPort { ready: f.rsp.ready, port: addr }, ..f },
                ),
                true,
            )
        } else if 1 <= i && i <= f.req.len() {
            (
                CellV::Fork(
                    crate::cellview::ForkV {
                        req: f.req.update(
                            i - 1,
                            ReqPort {
                                valid: f.req[i - 1].valid,
                                data: f.req[i - 1].data,
                                port: addr,
                            },
                        ),
                        ..f
                    },
                ),
                true,
            )
        } else {
            (c, false)
        },
    }
}

/// An element-wise copy of a vector of plain values.
pub fn copy_vec<T: Copy>(v: &Vec<T>) -> (r: Vec<T>)
    ensures
        r@ == v@,
{
    let mut r: Vec<T> = Vec::new();
    let mut i: usize = 0;
    while i < v.len()
        invariant
            i <= v.len(),
            r@ =~= v@.subrange(0, i as int),
        decreases v.len() - i,
    {
        r.push(v[i]);
        i = i + 1;
    }
    proof {
        assert(r@ =~= v@);
    }
    r
}

impl Cell {
    /// The concrete type of this cell, naming its bucket.
    pub fn kind(&self) -> (k: CellKind)
        ensures
            k == cell_kind(self@),
    {
        match self {
            Cell::Src(_) => CellKind::Src,
            Cell::Sink(_) => CellKind::Sink,
            Cell::Fifo(_) => CellKind::Fifo,
            Cell::Fork(_) => CellKind::Fork,
        }
    }

    /// A value-identical copy of this cell.
    pub fn duplicate(&self) -> (r: Cell)
        ensures
            r@ == self@,
    {
        match self {
            Cell::Src(c) => Cell::Src(
                Src { buffer: copy_vec(&c.buffer), index: c.index, req: c.req },
            ),
            Cell::Sink(c) => Cell::Sink(
                Sink { name: c.name.clone(), rec: copy_vec(&c.rec), rsp: c.rsp },
            ),
            Cell::Fifo(c) => Cell::Fifo(
                Fifo {
                    buffer: copy_vec(&c.buffer),
                    capacity: c.capacity,
                    zero_cycle: c.zero_cycle,
                    rsp: c.rsp,
                    req: c.req,
                },
            ),
            Cell::Fork(c) => Cell::Fork(
                Fork { waiting: copy_vec(&c.waiting), rsp: c.rsp, req: copy_vec(&c.req) },
            ),
        }
    }

    /// The peer addresses of every port this cell owns, in local port
    /// order.
    pub fn get_port_ids(&self) -> (r: Vec<Port>)
        ensures
            r@ == cell_ports(self@),
    {
        match self {
            Cell::Src(c) => {
                let mut v: Vec<Port> = Vec::new();
                v.push(c.req.port);
                proof {
                    assert(v@ =~= cell_ports(self@));
                }
                v
            },
            Cell::Sink(c) => {
                let mut v: Vec<Port> = Vec::new();
                v.push(c.rsp.port);
                proof {
                    assert(v@ =~= cell_ports(self@));
                }
                v
            },
            Cell::Fifo(c) => {
                let mut v: Vec<Port> = Vec::new();
                v.push(c.rsp.port);
                v.push(c.req.port);
                proof {
                    assert(v@ =~= cell_ports(self@));
                }
                v
            },
            Cell::Fork(c) => {
                let mut v: Vec<Port> = Vec::new();
                v.push(c.rsp.port);
                let mut i: usize = 0;
                while i < c.req.len()
                    invariant
                        i <= c.req@.len(),
                        v@.len() == i + 1,
                        v@[0] == c.rsp.port,
                        forall|j: int| 0 <= j < i ==> v@[j + 1] == c.req@[j].port,
                    decreases c.req@.len() - i,
                {
                    v.push(c.req[i].port);
                    i = i + 1;
                }
                proof {
                    assert(v@ =~= cell_ports(self@));
                }
                v
            },
        }
    }

    /// The port record at local index `port`, if any. A `Src` or `Sink`
    /// owns a single port and exposes it at every index.
    pub fn get_port(&self, port: usize) -> (r: Option<AnyPort>)
        ensures
            r == cell_port_at(self@, port as int),
    {
        match self {
            Cell::Src(c) => Some(AnyPort::Req(c.req)),
            Cell::Sink(c) => Some(AnyPort::Rsp(c.rsp)),
            Cell::Fifo(c) => if port == 0 {
                Some(AnyPort::Rsp(c.rsp))
            } else if port == 1 {
                Some(AnyPort::Req(c.req))
            } else {
                None
            },
            Cell::Fork(c) => if port == 0 {
                Some(AnyPort::Rsp(c.rsp))
            } else if port <= c.req.len() {
                Some(AnyPort::Req(c.req[port - 1]))
            } else {
                None
            },
        }
    }

    /// Write peer address `addr` into local port `port`; reports whether
    /// the index addressed a port of this cell.
    pub fn set_peer(&mut self, port: usize, addr: Port) -> (ok: bool)
        ensures
            final(self)@ == cell_set_peer(old(self)@, port as int, addr).0,
            ok == cell_set_peer(old(self)@, port as int, addr).1,
    {
        match self {
            Cell::Src(c) => {
                if port == 0 {
                    c.req.port = addr;
                    true
                } else {
                    false
                }
            },
            Cell::Sink(c) => {
                if port == 0 {
                    c.rsp.port = addr;
                    true
                } else {
                    false
                }
            },
            Cell::Fifo(c) => {
                if port == 0 {
                    c.rsp.port = addr;
                    true
                } else if port == 1 {
                    c.req.port = addr;
                    true
                } else {
                    false
                }
            },
            Cell::Fork(c) => {
                if port == 0 {
                    c.rsp.port = addr;
                    true
                } else if port <= c.req.len() {
                    let q = c.req[port - 1];
                    c.req.set(port - 1, ReqPort { valid: q.valid, data: q.data, port: addr });
                    true
                } else {
                    false
                }
            },
        }
    }

    /// One combinational evaluation against the observed graph `g`;
    /// returns whether an observable port field changed.
    pub fn csim(&mut self, g: &Vec<Bucket>) -> (changed: bool)
        ensures
            final(self)@ == cell_csim(old(self)@, gview(*g)),
            changed == cell_changed(old(self)@, gview(*g)),
    {
        match self {
            Cell::Src(c) => c.csim(),
            Cell::Sink(c) => c.csim(),
            Cell::Fifo(c) => c.csim(g),
            Cell::Fork(c) => c.csim(g),
        }
    }

    /// The edge-phase transition against the settled graph `g`.
    pub fn edge(&mut self, g: &Vec<Bucket>)
        ensures
            final(self)@ == cell_edge(old(self)@, gview(*g)),
    {
        match self {
            Cell::Src(c) => c.edge(g),
            Cell::Sink(c) => c.edge(g),
            Cell::Fifo(c) => c.edge(g),
            Cell::Fork(c) => c.edge(g),
        }
    }
}

/// The port record addressed by `p` in graph `g`, if any.
pub fn port_at(g: &Vec<Bucket>, p: Port) -> (r: Option<AnyPort>)
    ensures
        r == spec_port_at(gview(*g), p),
{
    match p {
        Port::Z => None,
        Port::Wire { node, port } => {
            if node.ntype < g.len() {
                let bucket = &g[node.ntype];
                if node.index < bucket.cells.len() {
                    proof {
                        assert(gview(*g)[node.ntype as int] == bucket@);
                    }
                    bucket.cells[node.index].get_port(port)
                } else {
                    None
                }
            } else {
                None
            }
        },
    }
}

/// The producer record at the far end of `p`, when that end is a
/// producer endpoint.
pub fn peer_req(g: &Vec<Bucket>, p: Port) -> (r: Option<ReqPort>)
    ensures
        r == spec_peer_req(gview(*g), p),
{
    match port_at(g, p) {
        Some(AnyPort::Req(q)) => Some(q),
        _ => None,
    }
}

/// The consumer record at the far end of `p`, when that end is a
/// consumer endpoint.
pub fn peer_rsp(g: &Vec<Bucket>, p: Port) -> (r: Option<RspPort>)
    ensures
        r == spec_peer_rsp(gview(*g), p),
{
    match port_at(g, p) {
        Some(AnyPort::Rsp(q)) => Some(q),
        _ => None,
    }
}

} // verus!
