//! Packet schema: the source-routing header and the five packet classes.
use vstd::prelude::*;

verus! {

/// Identifier of a node of the mesh.
pub type NodeId = u8;

/// Size in bytes of the payload carried by one message fragment.
pub const FRAGMENT_DSIZE: usize = 128;

/// Role of a node that appears in a flood's path trace.
#[derive(Clone, Copy, Debug, PartialEq, Eq, Structural)]
pub enum NodeType {
    Client,
    Drone,
    Server,
}

/// Reason carried by a negative acknowledgement.
#[derive(Clone, Copy, Debug, PartialEq, Eq, Structural)]
pub enum NackType {
    ErrorInRouting(NodeId),
    DestinationIsDrone,
    Dropped,
    UnexpectedRecipient(NodeId),
}

#[derive(Clone, Copy, Debug, PartialEq, Eq, Structural)]
pub struct Ack {
    pub fragment_index: u64,
}

#[derive(Clone, Copy, Debug, PartialEq, Eq, Structural)]
pub struct Nack {
    pub fragment_index: u64,
    pub nack_type: NackType,
}

#[derive(Clone, Copy, Debug, PartialEq, Eq)]
pub struct Fragment {
    pub fragment_index: u64,
    pub total_n_fragments: u64,
    pub length: u8,
    pub data: [u8; FRAGMENT_DSIZE],
}

#[derive(Clone, Debug, PartialEq, Eq)]
pub struct FloodRequest {
    pub flood_id: u64,
    pub initiator_id: NodeId,
    pub path_trace: Vec<(NodeId, NodeType)>,
}

#[derive(Clone, Debug, PartialEq, Eq)]
pub struct FloodResponse {
    pub flood_id: u64,
    pub path_trace: Vec<(NodeId, NodeType)>,
}

#[derive(Clone, Debug, PartialEq, Eq)]
pub enum PacketType {
    MsgFragment(Fragment),
    Ack(Ack),
    Nack(Nack),
    FloodRequest(FloodRequest),
    FloodResponse(FloodResponse),
}

/// The route fixed by the packet's origin, and the position on it of the node
/// that must currently process the packet.
#[derive(Clone, Debug, PartialEq, Eq)]
pub struct SourceRoutingHeader {
    pub hop_index: usize,
    pub hops: Vec<NodeId>,
}

#[derive(Clone, Debug, PartialEq, Eq)]
pub struct Packet {
    pub pack_type: PacketType,
    pub routing_header: SourceRoutingHeader,
    pub session_id: u64,
}

/// What a packet's class carries, with every sequence as a `Seq`.
pub enum PacketTypeView {
    MsgFragment(Fragment),
    Ack(Ack),
    Nack(Nack),
    FloodRequest { flood_id: u64, initiator_id: NodeId, path_trace: Seq<(NodeId, NodeType)> },
    FloodResponse { flood_id: u64, path_trace: Seq<(NodeId, NodeType)> },
}

/// Mathematical model of a packet.
pub struct PacketView {
    pub pack_type: PacketTypeView,
    pub hop_index: nat,
    pub hops: Seq<NodeId>,
    pub session_id: u64,
}

impl View for PacketType {
    type V = PacketTypeView;

    open spec fn view(&self) -> PacketTypeView {
        match self {
            PacketType::MsgFragment(f) => PacketTypeView::MsgFragment(*f),
            PacketType::Ack(a) => PacketTypeView::Ack(*a),
            PacketType::Nack(n) => PacketTypeView::Nack(*n),
            PacketType::FloodRequest(r) => PacketTypeView::FloodRequest {
                flood_id: r.flood_id,
                initiator_id: r.initiator_id,
                path_trace: r.path_trace@,
            },
            PacketType::FloodResponse(r) => PacketTypeView::FloodResponse {
                flood_id: r.flood_id,
                path_trace: r.path_trace@,
            },
        }
    }
}

impl View for Packet {
    type V = PacketView;

    open spec fn view(&self) -> PacketView {
        PacketView {
            pack_type: self.pack_type@,
            hop_index: self.routing_header.hop_index as nat,
            hops: self.routing_header.hops@,
            session_id: self.session_id,
        }
    }
}

/// A copy of a path trace.
pub fn copy_trace(t: &Vec<(NodeId, NodeType)>) -> (r: Vec<(NodeId, NodeType)>)
    ensures
        r@ == t@,
{
    let mut r: Vec<(NodeId, NodeType)> = Vec::with_capacity(t.len());
    let mut i: usize = 0;
    while i < t.len()
        invariant
            i <= t@.len(),
            r@ == t@.take(i as int),
        decreases t@.len() - i,
    {
        r.push(t[i]);
        i = i + 1;
        assert(r@ =~= t@.take(i as int));
    }
    assert(t@.take(t@.len() as int) =~= t@);
    r
}

/// A copy of a route.
pub fn copy_hops(h: &Vec<NodeId>) -> (r: Vec<NodeId>)
    ensures
        r@ == h@,
{
    let r = h.clone();
    assert(r@ =~= h@);
    r
}

/// Index of the fragment that a packet's class carries: a message fragment's
/// own index, and 0 for every other class, which is never fragmented.
pub open spec fn fragment_index_of(t: PacketTypeView) -> u64 {
    match t {
        PacketTypeView::MsgFragment(f) => f.fragment_index,
        _ => 0,
    }
}

/// The node ids of a path trace, in order.
pub open spec fn trace_ids(t: Seq<(NodeId, NodeType)>) -> Seq<NodeId> {
    t.map_values(|e: (NodeId, NodeType)| e.0)
}

impl PacketType {
    /// A copy of this packet class with the same contents.
    pub fn duplicate(&self) -> (r: PacketType)
        ensures
            r@ == self@,
    {
        match self {
            PacketType::MsgFragment(f) => PacketType::MsgFragment(*f),
            PacketType::Ack(a) => PacketType::Ack(*a),
            PacketType::Nack(n) => PacketType::Nack(*n),
            PacketType::FloodRequest(r) => PacketType::FloodRequest(
                FloodRequest {
                    flood_id: r.flood_id,
                    initiator_id: r.initiator_id,
                    path_trace: copy_trace(&r.path_trace),
                },
            ),
            PacketType::FloodResponse(r) => PacketType::FloodResponse(
                FloodResponse { flood_id: r.flood_id, path_trace: copy_trace(&r.path_trace) },
            ),
        }
    }
}

impl Packet {
    /// A copy of this packet with the same contents.
    pub fn duplicate(&self) -> (r: Packet)
        ensures
            r@ == self@,
    {
        Packet {
            pack_type: self.pack_type.duplicate(),
            routing_header: SourceRoutingHeader {
                hop_index: self.routing_header.hop_index,
                hops: copy_hops(&self.routing_header.hops),
            },
            session_id: self.session_id,
        }
    }

    /// The index of the fragment this packet carries, 0 when it carries none.
    pub fn get_fragment_index(&self) -> (r: u64)
        ensures
            r == fragment_index_of(self@.pack_type),
    {
        match &self.pack_type {
            PacketType::MsgFragment(f) => f.fragment_index,
            _ => 0,
        }
    }
}

} // verus!
