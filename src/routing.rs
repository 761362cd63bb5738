//! Routing primitives: reverse paths for NACKs and flood responses.
use vstd::prelude::*;
use crate::packet::{
    copy_trace, fragment_index_of, trace_ids, FloodResponse, Nack, NackType, NodeId, NodeType, Packet,
    PacketType, PacketTypeView, PacketView, SourceRoutingHeader,
};

verus! {

/// The route from `hops[k]` back to `hops[0]`: the prefix of `hops` up to and
/// including position `k`, reversed.
pub open spec fn reversed_prefix(hops: Seq<NodeId>, k: nat) -> Seq<NodeId> {
    hops.take((k + 1) as int).reverse()
}

/// The NACK that answers packet `p` at its current hop: it carries `nack`,
/// keeps the session, and travels back along the route walked so far,
/// starting at index 0.
pub open spec fn nack_packet(p: PacketView, nack: Nack) -> PacketView {
    PacketView {
        pack_type: PacketTypeView::Nack(nack),
        hop_index: 0,
        hops: reversed_prefix(p.hops, p.hop_index),
        session_id: p.session_id,
    }
}

/// The NACK of class `t` that answers packet `p`.
pub open spec fn nack_for(p: PacketView, t: NackType) -> PacketView {
    nack_packet(p, Nack { fragment_index: fragment_index_of(p.pack_type), nack_type: t })
}

/// The flood response that retraces `trace` (already ending at the responder)
/// from its last node back to the initiator.
pub open spec fn flood_response(
    session_id: u64,
    flood_id: u64,
    trace: Seq<(NodeId, NodeType)>,
) -> PacketView {
    PacketView {
        pack_type: PacketTypeView::FloodResponse { flood_id, path_trace: trace },
        hop_index: 0,
        hops: trace_ids(trace).reverse(),
        session_id,
    }
}

/// The first `hop_index + 1` hops of a route, in reverse order.
pub fn reverse_prefix(hops: &Vec<NodeId>, hop_index: usize) -> (r: Vec<NodeId>)
    requires
        hop_index < hops.len(),
    ensures
        r@ == reversed_prefix(hops@, hop_index as nat),
{
    let len: usize = hop_index + 1;
    let mut r: Vec<NodeId> = Vec::with_capacity(len);
    let mut i: usize = len;
    while i > 0
        invariant
            i <= hop_index + 1,
            hop_index < hops@.len(),
            r@.len() == hop_index + 1 - i,
            forall|j: int| 0 <= j < r@.len() ==> r@[j] == hops@[hop_index - j],
        decreases i,
    {
        i = i - 1;
        r.push(hops[i]);
    }
    assert(r@ =~= reversed_prefix(hops@, hop_index as nat));
    r
}

/// Builds the NACK that answers `packet` at its current hop (see [`nack_packet`]).
pub fn packet_nack(packet: &Packet, nack: Nack) -> (r: Packet)
    requires
        packet@.hop_index < packet@.hops.len(),
    ensures
        r@ == nack_packet(packet@, nack),
{
    Packet {
        pack_type: PacketType::Nack(nack),
        routing_header: SourceRoutingHeader {
            hop_index: 0,
            hops: reverse_prefix(&packet.routing_header.hops, packet.routing_header.hop_index),
        },
        session_id: packet.session_id,
    }
}

/// The node ids of a path trace, last first.
pub fn reversed_trace_ids(trace: &Vec<(NodeId, NodeType)>) -> (r: Vec<NodeId>)
    ensures
        r@ == trace_ids(trace@).reverse(),
{
    let mut r: Vec<NodeId> = Vec::with_capacity(trace.len());
    let mut i: usize = trace.len();
    while i > 0
        invariant
            i <= trace@.len(),
            r@.len() == trace@.len() - i,
            forall|j: int| 0 <= j < r@.len() ==> r@[j] == trace@[trace@.len() - 1 - j].0,
        decreases i,
    {
        i = i - 1;
        r.push(trace[i].0);
    }
    assert(r@ =~= trace_ids(trace@).reverse());
    r
}

/// Builds the flood response that retraces `trace` (see [`flood_response`]).
pub fn new_flood_response(session_id: u64, flood_id: u64, trace: &Vec<(NodeId, NodeType)>) -> (r:
    Packet)
    ensures
        r@ == flood_response(session_id, flood_id, trace@),
{
    Packet {
        pack_type: PacketType::FloodResponse(
            FloodResponse { flood_id, path_trace: copy_trace(trace) },
        ),
        routing_header: SourceRoutingHeader { hop_index: 0, hops: reversed_trace_ids(trace) },
        session_id,
    }
}

} // verus!
