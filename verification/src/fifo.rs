//! `Fifo`: a bounded first-in-first-out queue cell with one consumer and
//! one producer port, optionally forwarding an incoming item in the same
//! cycle while empty ("zero-cycle" mode).

use vstd::prelude::*;

use crate::cell::{gview, peer_req, peer_rsp, Bucket};
use crate::cellview::{observed_data, observed_ready, observed_valid, FifoV, GraphV};
use crate::ports::{Port, ReqPort, RspPort};

verus! {

/// A bounded queue. `buffer[0]` is the front; values enter at the back.
pub struct Fifo {
    pub buffer: Vec<u64>,
    pub capacity: usize,
    pub zero_cycle: bool,
    pub rsp: RspPort,
    pub req: ReqPort,
}

impl View for Fifo {
    type V = FifoV;

    open spec fn view(&self) -> FifoV {
        FifoV {
            buffer: self.buffer@,
            capacity: self.capacity as int,
            zero_cycle: self.zero_cycle,
            rsp: self.rsp,
            req: self.req,
        }
    }
}

/// One combinational evaluation of a `Fifo` against the graph `g` it
/// observes: `ready` while below capacity; `valid` while holding a value,
/// or, in zero-cycle mode, while the upstream producer offers one; `data`
/// the front value, or the bypassed incoming value when empty in
/// zero-cycle mode.
pub open spec fn fifo_csim(f: FifoV, g: GraphV) -> FifoV {
    let iv = observed_valid(g, f.rsp.port);
    let id = observed_data(g, f.rsp.port);
    FifoV {
        rsp: RspPort { ready: f.buffer.len() < f.capacity, port: f.rsp.port },
        req: ReqPort {
            valid: f.buffer.len() > 0 || (iv && f.zero_cycle),
            data: if f.zero_cycle && f.buffer.len() == 0 {
                id
            } else if f.buffer.len() > 0 {
                f.buffer[0]
            } else {
                0
            },
            port: f.req.port,
        },
        ..f
    }
}

/// Whether that evaluation changes an observable port field.
pub open spec fn fifo_changed(f: FifoV, g: GraphV) -> bool {
    fifo_csim(f, g).rsp != f.rsp || fifo_csim(f, g).req != f.req
}

/// The edge-phase transition of a `Fifo` against the settled graph `g`.
/// With `pop` (a transfer on the output wire) the front value leaves;
/// with `push` (a transfer on the input wire) the incoming value enters.
/// A zero-cycle bypass — a transfer out while the buffer was empty —
/// carried the incoming value straight through: it is neither pushed
/// nor popped.
pub open spec fn fifo_edge(f: FifoV, g: GraphV) -> FifoV {
    let pop = f.req.valid && observed_ready(g, f.req.port);
    let bypass = pop && f.zero_cycle && f.buffer.len() == 0;
    let b1 = if pop && f.buffer.len() > 0 {
        f.buffer.drop_first()
    } else {
        f.buffer
    };
    let push = observed_valid(g, f.rsp.port) && f.rsp.ready && !bypass;
    FifoV { buffer: if push { b1.push(observed_data(g, f.rsp.port)) } else { b1 }, ..f }
}

impl Fifo {
    /// An empty queue bounded by `capacity`, forwarding combinationally
    /// while empty iff `zero_cycle`.
    pub fn new(capacity: usize, zero_cycle: bool) -> (r: Fifo)
        ensures
            r@ == (FifoV {
                buffer: Seq::<u64>::empty(),
                capacity: capacity as int,
                zero_cycle,
                rsp: RspPort { ready: false, port: Port::Z },
                req: ReqPort { valid: false, data: 0, port: Port::Z },
            }),
    {
        let buffer = Vec::with_capacity(capacity);
        Fifo { buffer, capacity, zero_cycle, req: ReqPort::new(0), rsp: RspPort::new() }
    }

    /// The number of values currently queued.
    pub fn len(&self) -> (r: usize)
        ensures
            r == self@.buffer.len(),
    {
        self.buffer.len()
    }

    /// One combinational evaluation; returns whether an observable port
    /// field changed.
    pub fn csim(&mut self, g: &Vec<Bucket>) -> (changed: bool)
        ensures
            final(self)@ == fifo_csim(old(self)@, gview(*g)),
            changed == fifo_changed(old(self)@, gview(*g)),
    {
        let prev_rsp = self.rsp;
        let prev_req = self.req;

        self.rsp.ready = self.buffer.len() < self.capacity;

        let (iv, id): (bool, u64) = match peer_req(g, self.rsp.port) {
            Some(q) => (q.valid, q.data),
            None => (false, 0),
        };

        self.req.valid = self.buffer.len() > 0 || (iv && self.zero_cycle);
        self.req.data = if self.zero_cycle && self.buffer.len() == 0 {
            id
        } else if self.buffer.len() > 0 {
            self.buffer[0]
        } else {
            0
        };

        prev_rsp != self.rsp || prev_req != self.req
    }

    /// The edge-phase transition, reading peers from the settled graph.
    pub fn edge(&mut self, g: &Vec<Bucket>)
        ensures
            final(self)@ == fifo_edge(old(self)@, gview(*g)),
    {
        let pready = match peer_rsp(g, self.req.port) {
            Some(p) => p.ready,
            None => false,
        };
        let pop = self.req.valid && pready;
        let bypass = pop && self.zero_cycle && self.buffer.len() == 0;
        if pop && self.buffer.len() > 0 {
            self.buffer.remove(0);
        }
        if let Some(q) = peer_req(g, self.rsp.port) {
            if q.valid && self.rsp.ready && !bypass {
                self.buffer.push(q.data);
            }
        }
    }
}

} // verus!
