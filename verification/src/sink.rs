//! `Sink`: a consumer cell that is always ready and logs every value it
//! receives.

use vstd::prelude::*;

use crate::cell::{gview, peer_req, Bucket};
use crate::cellview::{GraphV, SinkV};
use crate::ports::RspPort;

verus! {

/// Accepts a value on every cycle its producer offers one, appending it
/// to `rec`.
pub struct Sink {
    pub name: String,
    pub rec: Vec<u64>,
    pub rsp: RspPort,
}

impl View for Sink {
    type V = SinkV;

    open spec fn view(&self) -> SinkV {
        SinkV { name: self.name@, rec: self.rec@, rsp: self.rsp }
    }
}

/// One combinational evaluation of a `Sink`: raise `ready`.
pub open spec fn sink_csim(s: SinkV) -> SinkV {
    SinkV { rsp: RspPort { ready: true, port: s.rsp.port }, ..s }
}

/// Whether that evaluation changes an observable port field: only on the
/// first evaluation, when `ready` was still low.
pub open spec fn sink_changed(s: SinkV) -> bool {
    !s.rsp.ready
}

/// The edge-phase transition of a `Sink` against the settled graph `g`:
/// append the peer's data iff a transfer occurred on its wire.
pub open spec fn sink_edge(s: SinkV, g: GraphV) -> SinkV {
    match crate::cellview::spec_peer_req(g, s.rsp.port) {
        Some(q) => if q.valid && s.rsp.ready {
            SinkV { rec: s.rec.push(q.data), ..s }
        } else {
            s
        },
        None => s,
    }
}

impl Sink {
    /// A sink with an empty log.
    pub fn new(name: String) -> (r: Sink)
        ensures
            r@ == (SinkV {
                name: name@,
                rec: Seq::<u64>::empty(),
                rsp: RspPort { ready: false, port: crate::ports::Port::Z },
            }),
    {
        Sink { name, rec: Vec::new(), rsp: RspPort::new() }
    }

    /// One combinational evaluation; returns whether an observable port
    /// field changed.
    pub fn csim(&mut self) -> (changed: bool)
        ensures
            final(self)@ == sink_csim(old(self)@),
            changed == sink_changed(old(self)@),
    {
        if !self.rsp.ready {
            self.rsp.ready = true;
            true
        } else {
            false
        }
    }

    /// The edge-phase transition, reading peers from the settled graph.
    pub fn edge(&mut self, g: &Vec<Bucket>)
        ensures
            final(self)@ == sink_edge(old(self)@, gview(*g)),
    {
        if let Some(q) = peer_req(g, self.rsp.port) {
            if q.valid && self.rsp.ready {
                self.rec.push(q.data);
            }
        }
    }
}

} // verus!
