//! `Src`: a producer cell that offers the items of a finite buffer, in
//! order, over a single producer port.

use vstd::prelude::*;

use crate::cell::{gview, peer_rsp, Bucket};
use crate::cellview::{observed_ready, GraphV, SrcV};
use crate::ports::{Port, ReqPort};

verus! {

/// Offers `buffer[index..]` one item per transfer; asserts `valid` while
/// items remain and drives the current item on `data`.
pub struct Src {
    pub buffer: Vec<u64>,
    pub index: usize,
    pub req: ReqPort,
}

impl View for Src {
    type V = SrcV;

    open spec fn view(&self) -> SrcV {
        SrcV { buffer: self.buffer@, index: self.index as int, req: self.req }
    }
}

/// One combinational evaluation of a `Src`: `valid` iff an item remains,
/// `data` the current item (default when exhausted), peer address kept.
pub open spec fn src_csim(s: SrcV) -> SrcV {
    SrcV {
        req: ReqPort {
            valid: s.index < s.buffer.len(),
            data: if 0 <= s.index && s.index < s.buffer.len() {
                s.buffer[s.index]
            } else {
                0
            },
            port: s.req.port,
        },
        ..s
    }
}

/// Whether that evaluation changes an observable port field.
pub open spec fn src_changed(s: SrcV) -> bool {
    src_csim(s).req != s.req
}

/// The edge-phase transition of a `Src` against the settled graph `g`:
/// the index advances iff a transfer occurred on its wire.
pub open spec fn src_edge(s: SrcV, g: GraphV) -> SrcV {
    if s.req.valid && observed_ready(g, s.req.port) && s.index < s.buffer.len() {
        SrcV { index: s.index + 1, ..s }
    } else {
        s
    }
}

impl Src {
    /// A source that will offer the items of `buffer` in order.
    pub fn new(buffer: Vec<u64>) -> (r: Src)
        ensures
            r@ == (SrcV {
                buffer: buffer@,
                index: 0,
                req: ReqPort { valid: false, data: 0, port: Port::Z },
            }),
    {
        Src { buffer, index: 0, req: ReqPort::new(0) }
    }

    /// One combinational evaluation; returns whether an observable port
    /// field changed.
    pub fn csim(&mut self) -> (changed: bool)
        ensures
            final(self)@ == src_csim(old(self)@),
            changed == src_changed(old(self)@),
    {
        let prev = self.req;
        self.req.data = if self.index < self.buffer.len() {
            self.buffer[self.index]
        } else {
            0
        };
        self.req.valid = self.index < self.buffer.len();
        prev != self.req
    }

    /// The edge-phase transition, reading peers from the settled graph.
    pub fn edge(&mut self, g: &Vec<Bucket>)
        ensures
            final(self)@ == src_edge(old(self)@, gview(*g)),
    {
        let pready = match peer_rsp(g, self.req.port) {
            Some(p) => p.ready,
            None => false,
        };
        if self.req.valid && pready && self.index < self.buffer.len() {
            self.index = self.index + 1;
        }
    }
}

} // verus!
