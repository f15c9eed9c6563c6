//! Port addressing: node identifiers, wire endpoints, and the two
//! handshake port records carried by the producer and consumer ends of a
//! wire.

use vstd::prelude::*;

verus! {

/// Identifies a node in the simulation graph: the bucket that holds all
/// nodes of one concrete cell type, and the node's index within it.
#[derive(Debug, Copy, Clone, Eq, PartialEq, Structural)]
pub struct NodeId {
    pub ntype: usize,
    pub index: usize,
}

/// The address of a wire endpoint: either a port of a node, or the
/// reserved unconnected value `Z`. A wire whose either end is `Z` can
/// never carry a transfer.
#[derive(Debug, Copy, Clone, Eq, PartialEq, Structural)]
pub enum Port {
    Wire { node: NodeId, port: usize },
    Z,
}

/// The producer endpoint of a wire: asserts `valid` and drives `data`.
/// `data` is meaningful only while `valid` is true; cells keep a
/// canonical default otherwise so that settled values compare equal.
#[derive(Debug, Copy, Clone, Eq, PartialEq, Structural)]
pub struct ReqPort {
    pub valid: bool,
    pub data: u64,
    pub port: Port,
}

/// The consumer endpoint of a wire: asserts `ready`.
#[derive(Debug, Copy, Clone, Eq, PartialEq, Structural)]
pub struct RspPort {
    pub ready: bool,
    pub port: Port,
}

impl NodeId {
    /// The address of this node's local port `port`, as written into the
    /// peer field of the other end of a wire.
    pub fn port(self, port: usize) -> (r: Port)
        ensures
            r == (Port::Wire { node: self, port }),
    {
        Port::Wire { node: self, port }
    }
}

impl Port {
    /// The node this endpoint addresses, if connected.
    pub fn dst_node(&self) -> (r: Option<NodeId>)
        ensures
            r == (match *self {
                Port::Wire { node, port } => Some(node),
                Port::Z => None::<NodeId>,
            }),
    {
        if let Port::Wire { node, port } = self {
            Some(*node)
        } else {
            None
        }
    }

    /// The local port index this endpoint addresses, if connected.
    pub fn dst_port(&self) -> (r: Option<usize>)
        ensures
            r == (match *self {
                Port::Wire { node, port } => Some(port),
                Port::Z => None::<usize>,
            }),
    {
        if let Port::Wire { node, port } = self {
            Some(*port)
        } else {
            None
        }
    }

    /// Both halves of the address at once, if connected.
    pub fn dst(&self) -> (r: Option<(NodeId, usize)>)
        ensures
            r == (match *self {
                Port::Wire { node, port } => Some((node, port)),
                Port::Z => None::<(NodeId, usize)>,
            }),
    {
        if let Port::Wire { node, port } = self {
            Some((*node, *port))
        } else {
            None
        }
    }
}

impl ReqPort {
    /// A fresh, unconnected producer endpoint holding `data` as its
    /// canonical default value.
    pub fn new(data: u64) -> (r: ReqPort)
        ensures
            r == (ReqPort { valid: false, data, port: Port::Z }),
    {
        ReqPort { valid: false, data, port: Port::Z }
    }
}

impl RspPort {
    /// A fresh, unconnected consumer endpoint.
    pub fn new() -> (r: RspPort)
        ensures
            r == (RspPort { ready: false, port: Port::Z }),
    {
        RspPort { ready: false, port: Port::Z }
    }
}

/// A transfer occurs on a wire in a cycle iff, at the settled state of
/// that cycle, the producer asserts `valid` and the consumer asserts
/// `ready`.
pub open spec fn spec_transfer(req: ReqPort, rsp: RspPort) -> bool {
    req.valid && rsp.ready
}

} // verus!
