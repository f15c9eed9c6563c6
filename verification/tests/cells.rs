//! The cells, the port addressing, the node store, and the
//! pseudo-random source, exercised directly.

use rand::{RngCore, SeedableRng};
use rand_chacha::ChaCha8Rng;
use stdcells::cell::Cell;
use stdcells::fifo::Fifo;
use stdcells::fork::Fork;
use stdcells::ports::{NodeId, Port, ReqPort, RspPort};
use stdcells::rng::node_rng;
use stdcells::sim::Sim;
use stdcells::sink::Sink;
use stdcells::source::Src;

#[test]
fn port_addressing() {
    let id = NodeId { ntype: 2, index: 5 };
    let p = id.port(1);
    assert_eq!(Port::Wire { node: id, port: 1 }, p);
    assert_eq!(Some(id), p.dst_node());
    assert_eq!(Some(1), p.dst_port());
    assert_eq!(Some((id, 1)), p.dst());
    assert_eq!(None, Port::Z.dst_node());
    assert_eq!(None, Port::Z.dst_port());
    assert_eq!(None, Port::Z.dst());
}

#[test]
fn fresh_ports_are_idle_and_unconnected() {
    let req = ReqPort::new(9);
    assert!(!req.valid);
    assert_eq!(9, req.data);
    assert_eq!(Port::Z, req.port);
    let rsp = RspPort::new();
    assert!(!rsp.ready);
    assert_eq!(Port::Z, rsp.port);
}

#[test]
fn buckets_group_cells_by_kind() {
    let mut sim = Sim::new(37);
    let a = sim.add_node(Cell::Sink(Sink::new("a".to_string())));
    let b = sim.add_node(Cell::Src(Src::new(vec![1])));
    let c = sim.add_node(Cell::Sink(Sink::new("c".to_string())));
    let d = sim.add_node(Cell::Src(Src::new(vec![2])));
    // same kind lands in the same bucket, new kinds found new buckets
    assert_eq!(NodeId { ntype: 0, index: 0 }, a);
    assert_eq!(NodeId { ntype: 1, index: 0 }, b);
    assert_eq!(NodeId { ntype: 0, index: 1 }, c);
    assert_eq!(NodeId { ntype: 1, index: 1 }, d);
    assert!(matches!(sim.get_node(&c), Some(Cell::Sink(_))));
    assert!(matches!(sim.get_node(&d), Some(Cell::Src(_))));
    // out-of-range lookups are absent, never a panic
    assert!(sim.get_node(&NodeId { ntype: 0, index: 2 }).is_none());
    assert!(sim.get_node(&NodeId { ntype: 2, index: 0 }).is_none());
}

#[test]
fn set_peer_rejects_bad_ports() {
    let mut sim = Sim::new(37);
    let f = sim.add_node(Cell::Fifo(Fifo::new(2, false)));
    assert!(sim.set_peer(&f, 0, Port::Z));
    assert!(sim.set_peer(&f, 1, Port::Z));
    assert!(!sim.set_peer(&f, 2, Port::Z));
    assert!(!sim.set_peer(&NodeId { ntype: 9, index: 0 }, 0, Port::Z));
}

#[test]
fn fork_starts_all_waiting() {
    let mut sim = Sim::new(37);
    let f = sim.add_node(Cell::Fork(Fork::new(2)));
    match sim.get_node(&f) {
        Some(Cell::Fork(fork)) => {
            assert_eq!(vec![true, true], fork.waiting);
            assert_eq!(2, fork.req.len());
            assert!(!fork.rsp.ready);
        },
        _ => panic!("expected a fork"),
    }
}

#[test]
fn fork_graph_settles_and_forwards_handshake() {
    // A fork repeats the upstream valid on its waiting outputs and
    // settles like any other cell; it leaves each output's data at the
    // default, so the sink logs default values.
    let mut sim = Sim::new(37);
    let fork_id = sim.add_node(Cell::Fork(Fork::new(1)));
    let sink_id = sim.add_node(Cell::Sink(Sink::new("sink".to_string())));
    let src_id = sim.add_node(Cell::Src(Src::new(vec![7])));
    assert!(sim.set_peer(&fork_id, 0, src_id.port(0)));
    assert!(sim.set_peer(&fork_id, 1, sink_id.port(0)));
    assert!(sim.set_peer(&sink_id, 0, fork_id.port(1)));
    assert!(sim.set_peer(&src_id, 0, fork_id.port(0)));
    sim.settle_limit = 8;
    sim.sim_cycle().unwrap();
    match sim.get_node(&src_id) {
        Some(Cell::Src(s)) => assert_eq!(1, s.index),
        _ => panic!("expected a src"),
    }
    match sim.get_node(&fork_id) {
        Some(Cell::Fork(f)) => assert_eq!(vec![true], f.waiting),
        _ => panic!("expected a fork"),
    }
    match sim.get_node(&sink_id) {
        Some(Cell::Sink(s)) => assert_eq!(vec![0], s.rec),
        _ => panic!("expected a sink"),
    }
}

#[test]
fn rng_state_matches_chacha8_stream() {
    // the kernel's rng_state words are the ChaCha8 stream of the seed
    let mut reference = ChaCha8Rng::seed_from_u64(37);
    let w0 = reference.next_u64();
    let w1 = reference.next_u64();
    let w2 = reference.next_u64();

    let mut sim = Sim::new(37);
    assert_eq!(w0, sim.rng_state);
    sim.sim_cycle().unwrap();
    assert_eq!(w1, sim.rng_state);
    sim.sim_cycle().unwrap();
    assert_eq!(w2, sim.rng_state);
    assert_ne!(w0, w1);
}

#[test]
fn node_rng_is_reproducible_and_salted() {
    let id = NodeId { ntype: 1, index: 2 };
    let mut a = node_rng(0xdead_beef, id);
    let mut b = node_rng(0xdead_beef, id);
    assert_eq!(a.next_u64(), b.next_u64());
    // the salt tells nodes apart, across indices and across buckets
    let other = NodeId { ntype: 1, index: 3 };
    let mut c = node_rng(0xdead_beef, other);
    let mut d = node_rng(0xdead_beef, id);
    assert_ne!(c.next_u64(), d.next_u64());
    let swapped = NodeId { ntype: 2, index: 1 };
    let mut g = node_rng(0xdead_beef, swapped);
    let mut h = node_rng(0xdead_beef, id);
    assert_ne!(g.next_u64(), h.next_u64());
    // the per-node seed is the rng_state word XORed with the node salt
    let mut e = ChaCha8Rng::seed_from_u64(((1u64 << 32) ^ 2) ^ 0xdead_beef);
    let mut f = node_rng(0xdead_beef, id);
    assert_eq!(e.next_u64(), f.next_u64());
}

#[test]
fn src_goes_terminal_after_buffer_is_drained() {
    let mut sim = Sim::new(37);
    let sink_id = sim.add_node(Cell::Sink(Sink::new("sink".to_string())));
    let src_id = sim.add_node(Cell::Src(Src::new(vec![4, 5])));
    assert!(sim.set_peer(&sink_id, 0, src_id.port(0)));
    assert!(sim.set_peer(&src_id, 0, sink_id.port(0)));
    for _ in 0..5 {
        sim.sim_cycle().unwrap();
    }
    match sim.get_node(&src_id) {
        Some(Cell::Src(s)) => {
            assert_eq!(2, s.index);
            assert!(!s.req.valid);
        },
        _ => panic!("expected a src"),
    }
    match sim.get_node(&sink_id) {
        Some(Cell::Sink(s)) => assert_eq!(vec![4, 5], s.rec),
        _ => panic!("expected a sink"),
    }
}
