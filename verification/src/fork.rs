//! `Fork`: a broadcast cell with one consumer port and several producer
//! ports. An accepted item must transfer once on every output before the
//! next item is accepted; each output acknowledges individually, tracked
//! by one waiting flag per output.

use vstd::prelude::*;

use crate::cell::{gview, peer_req, peer_rsp, Bucket};
use crate::cellview::{observed_ready, observed_valid, ForkV, GraphV};
use crate::ports::{Port, ReqPort, RspPort};

verus! {

/// Broadcasts items from its consumer port to every producer port.
pub struct Fork {
    pub waiting: Vec<bool>,
    pub rsp: RspPort,
    pub req: Vec<ReqPort>,
}

impl View for Fork {
    type V = ForkV;

    open spec fn view(&self) -> ForkV {
        ForkV { waiting: self.waiting@, rsp: self.rsp, req: self.req@ }
    }
}

/// Whether every waiting flag is raised.
pub open spec fn all_waiting(w: Seq<bool>) -> bool {
    forall|i: int| 0 <= i < w.len() ==> w[i]
}

/// Whether every waiting flag is lowered.
pub open spec fn none_waiting(w: Seq<bool>) -> bool {
    forall|i: int| 0 <= i < w.len() ==> !w[i]
}

/// One combinational evaluation of a `Fork` against the graph `g`: each
/// output still waiting repeats the upstream `valid`; the input is ready
/// only while every output is waiting.
pub open spec fn fork_csim(f: ForkV, g: GraphV) -> ForkV {
    let iv = observed_valid(g, f.rsp.port);
    let n = vstd::math::min(f.req.len() as int, f.waiting.len() as int);
    ForkV {
        req: Seq::new(
            f.req.len(),
            |i: int| if i < n {
                ReqPort { valid: f.waiting[i] && iv, data: f.req[i].data, port: f.req[i].port }
            } else {
                f.req[i]
            },
        ),
        rsp: RspPort { ready: all_waiting(f.waiting), port: f.rsp.port },
        ..f
    }
}

/// Whether that evaluation changes an observable port field.
pub open spec fn fork_changed(f: ForkV, g: GraphV) -> bool {
    fork_csim(f, g).req != f.req || fork_csim(f, g).rsp != f.rsp
}

/// The edge-phase transition of a `Fork` against the settled graph `g`:
/// an output's waiting flag falls when it transfers; once no output is
/// waiting, every flag is raised again for the next item.
pub open spec fn fork_edge(f: ForkV, g: GraphV) -> ForkV {
    let n = vstd::math::min(f.req.len() as int, f.waiting.len() as int);
    let w1 = Seq::new(
        f.waiting.len(),
        |i: int| if i < n && f.req[i].valid && observed_ready(g, f.req[i].port) {
            false
        } else {
            f.waiting[i]
        },
    );
    ForkV { waiting: if none_waiting(w1) { Seq::new(w1.len(), |i: int| true) } else { w1 }, ..f }
}

impl Fork {
    /// A fork with `num_outs` producer ports, all initially waiting.
    pub fn new(num_outs: usize) -> (r: Fork)
        ensures
            r@.waiting == Seq::new(num_outs as nat, |i: int| true),
            r@.rsp == (RspPort { ready: false, port: Port::Z }),
            r@.req == Seq::new(num_outs as nat, |i: int| ReqPort { valid: false, data: 0, port: Port::Z }),
    {
        let mut waiting: Vec<bool> = Vec::new();
        let mut req: Vec<ReqPort> = Vec::new();
        let mut i: usize = 0;
        while i < num_outs
            invariant
                i <= num_outs,
                waiting@ =~= Seq::new(i as nat, |j: int| true),
                req@ =~= Seq::new(i as nat, |j: int| ReqPort { valid: false, data: 0, port: Port::Z }),
            decreases num_outs - i,
        {
            waiting.push(true);
            req.push(ReqPort::new(0));
            i = i + 1;
        }
        Fork { waiting, rsp: RspPort::new(), req }
    }

    /// One combinational evaluation; returns whether an observable port
    /// field changed.
    pub fn csim(&mut self, g: &Vec<Bucket>) -> (changed: bool)
        ensures
            final(self)@ == fork_csim(old(self)@, gview(*g)),
            changed == fork_changed(old(self)@, gview(*g)),
    {
        let iv = match peer_req(g, self.rsp.port) {
            Some(q) => q.valid,
            None => false,
        };
        let n = if self.req.len() < self.waiting.len() {
            self.req.len()
        } else {
            self.waiting.len()
        };
        let mut ch = false;
        let mut i: usize = 0;
        while i < n
            invariant
                i <= n,
                n == vstd::math::min(old(self)@.req.len() as int, old(self)@.waiting.len() as int),
                iv == observed_valid(gview(*g), old(self)@.rsp.port),
                self.waiting@ == old(self)@.waiting,
                self.rsp == old(self)@.rsp,
                self.req@.len() == old(self)@.req.len(),
                forall|j: int| 0 <= j < i ==> self.req@[j] == (ReqPort {
                    valid: old(self)@.waiting[j] && iv,
                    data: old(self)@.req[j].data,
                    port: old(self)@.req[j].port,
                }),
                forall|j: int| i <= j < self.req@.len() ==> self.req@[j] == old(self)@.req[j],
                ch == !(forall|j: int| 0 <= j < i ==> self.req@[j] == old(self)@.req[j]),
            decreases n - i,
        {
            let w = self.waiting[i];
            let q = self.req[i];
            let nq = ReqPort { valid: w && iv, data: q.data, port: q.port };
            if nq != q {
                ch = true;
            }
            self.req.set(i, nq);
            i = i + 1;
        }
        let mut all_w = true;
        let mut k: usize = 0;
        while k < self.waiting.len()
            invariant
                k <= self.waiting@.len(),
                all_w == (forall|j: int| 0 <= j < k ==> self.waiting@[j]),
            decreases self.waiting@.len() - k,
        {
            if !self.waiting[k] {
                all_w = false;
            }
            k = k + 1;
        }
        let prev_rsp = self.rsp;
        self.rsp.ready = all_w;
        if self.rsp != prev_rsp {
            ch = true;
        }
        proof {
            assert(self@.req =~= fork_csim(old(self)@, gview(*g)).req);
            if forall|j: int| 0 <= j < self.req@.len() ==> self.req@[j] == old(self)@.req[j] {
                assert(self@.req =~= old(self)@.req);
            }
        }
        ch
    }

    /// The edge-phase transition, reading peers from the settled graph.
    pub fn edge(&mut self, g: &Vec<Bucket>)
        ensures
            final(self)@ == fork_edge(old(self)@, gview(*g)),
    {
        let n = if self.req.len() < self.waiting.len() {
            self.req.len()
        } else {
            self.waiting.len()
        };
        let mut i: usize = 0;
        while i < n
            invariant
                i <= n,
                n == vstd::math::min(old(self)@.req.len() as int, old(self)@.waiting.len() as int),
                self.req@ == old(self)@.req,
                self.rsp == old(self)@.rsp,
                self.waiting@.len() == old(self)@.waiting.len(),
                forall|j: int| 0 <= j < i ==> self.waiting@[j] == (
                    if old(self)@.req[j].valid && observed_ready(gview(*g), old(self)@.req[j].port) {
                        false
                    } else {
                        old(self)@.waiting[j]
                    }
                ),
                forall|j: int| i <= j < self.waiting@.len() ==> self.waiting@[j] == old(self)@.waiting[j],
            decreases n - i,
        {
            let q = self.req[i];
            if q.valid {
                let pready = match peer_rsp(g, q.port) {
                    Some(p) => p.ready,
                    None => false,
                };
                if pready {
                    self.waiting.set(i, false);
                }
            }
            i = i + 1;
        }
        let ghost w1 = Seq::new(
            old(self)@.waiting.len(),
            |j: int| if j < n && old(self)@.req[j].valid
                && observed_ready(gview(*g), old(self)@.req[j].port) {
                false
            } else {
                old(self)@.waiting[j]
            },
        );
        proof {
            assert(self.waiting@ =~= w1);
        }
        let mut any_w = false;
        let mut k: usize = 0;
        while k < self.waiting.len()
            invariant
                k <= self.waiting@.len(),
                self.waiting@ == w1,
                any_w == !(forall|j: int| 0 <= j < k ==> !self.waiting@[j]),
            decreases self.waiting@.len() - k,
        {
            if self.waiting[k] {
                any_w = true;
            }
            k = k + 1;
        }
        if !any_w {
            let m = self.waiting.len();
            let mut t: usize = 0;
            while t < m
                invariant
                    t <= m,
                    m == self.waiting@.len(),
                    self.rsp == old(self)@.rsp,
                    self.req@ == old(self)@.req,
                    forall|j: int| 0 <= j < t ==> self.waiting@[j],
                    forall|j: int| t <= j < m ==> self.waiting@[j] == w1[j],
                decreases m - t,
            {
                self.waiting.set(t, true);
                t = t + 1;
            }
            proof {
                assert(self.waiting@ =~= Seq::new(w1.len(), |i: int| true));
            }
        }
    }
}

} // verus!
