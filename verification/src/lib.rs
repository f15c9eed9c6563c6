//! A discrete-event, cycle-accurate simulator for synchronous dataflow
//! circuits built from ready/valid-handshaked cells connected by
//! point-to-point wires.
//!
//! Each call of [`sim::Sim::sim_cycle`] runs one clock cycle in two
//! phases: a combinational settling phase, driven by dirty-index
//! worklists over a snapshot of the whole graph until a fixed point is
//! reached, and a single edge phase that applies every cell's
//! sequential state transition against the settled graph. Both phases
//! are specified as functions of the graph's mathematical view, so the
//! kernel's behaviour — including determinism and the worklist
//! bookkeeping — is pinned down exactly.
//!
//! The reference cells — [`source::Src`], [`sink::Sink`],
//! [`fifo::Fifo`], and the broadcast [`fork::Fork`] — anchor the
//! handshake contract: a wire carries a transfer in a cycle exactly
//! when, at the settled state, its producer asserts `valid` and its
//! consumer asserts `ready`.

pub mod cell;
pub mod cellview;
pub mod dirty;
pub mod fifo;
pub mod fork;
pub mod laws;
pub mod ports;
pub mod rng;
pub mod sim;
pub mod sink;
pub mod source;
