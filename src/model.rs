//! The drone's protocol as mathematics: its state, and what each packet and
//! each command does to that state and emits.
use vstd::prelude::*;
use crate::event::EffectView;
use crate::packet::{NackType, NodeId, NodeType, PacketTypeView, PacketView};
use crate::routing::{flood_response, nack_for};

verus! {

/// Life-cycle of a drone. Transitions are one-way: Active, then Crashing,
/// then Crashed.
#[derive(Clone, Copy, Debug, PartialEq, Eq, Structural)]
pub enum DroneState {
    /// Commands and packets are both served, commands first.
    Active,
    /// Commands are ignored; queued packets are drained, and message
    /// fragments are refused.
    Crashing,
    /// The drone has stopped.
    Crashed,
}

/// The packet classes, as a switch for per-class diagnostics.
#[derive(Clone, Copy, Debug, PartialEq, Eq, Hash, Structural)]
pub enum DroneDebugOption {
    Ack,
    Nack,
    FloodResponse,
    FloodRequest,
    MsgFragment,
}

/// A controller command that changes the neighbourhood or the life-cycle.
#[derive(Clone, Copy, Debug, PartialEq, Eq, Structural)]
pub enum Command {
    /// A new neighbour, reachable from now on.
    AddSender(NodeId),
    /// A neighbour that is no longer reachable.
    RemoveSender(NodeId),
    /// Begin the graceful shutdown.
    Crash,
}

/// A command that would break the topology: the controller is at fault.
#[derive(Clone, Copy, Debug, PartialEq, Eq, Structural)]
pub enum ConfigError {
    /// The drone was asked to be its own neighbour.
    NeighborIsSelf(NodeId),
    /// The neighbour is already known.
    NeighborAlreadyPresent(NodeId),
    /// The node is not a neighbour.
    NotANeighbor(NodeId),
}

/// Mathematical model of a drone.
pub struct DroneModel {
    pub id: NodeId,
    /// The neighbours, in the order in which they became known.
    pub neighbors: Seq<NodeId>,
    /// The (flood id, initiator id) pairs of the floods seen so far.
    pub seen_floods: Set<(u64, NodeId)>,
    pub state: DroneState,
}

impl DroneModel {
    /// The drone is never its own neighbour, and knows each neighbour once.
    pub open spec fn inv(self) -> bool {
        &&& !self.neighbors.contains(self.id)
        &&& self.neighbors.no_duplicates()
    }
}

/// Acknowledgements, NACKs and flood responses: the classes that are never
/// dropped and never answered with a NACK.
pub open spec fn is_control_plane(t: PacketTypeView) -> bool {
    match t {
        PacketTypeView::Ack(_) => true,
        PacketTypeView::Nack(_) => true,
        PacketTypeView::FloodResponse { .. } => true,
        _ => false,
    }
}

/// The packet as the next hop receives it.
pub open spec fn advanced(p: PacketView) -> PacketView {
    PacketView { hop_index: p.hop_index + 1, ..p }
}

/// Where a unicast forward of `p` goes: the neighbour after the current hop,
/// or why it cannot go there.
pub open spec fn next_hop(neighbors: Seq<NodeId>, p: PacketView) -> Result<NodeId, NackType> {
    let k = p.hop_index + 1;
    if k < p.hops.len() {
        if neighbors.contains(p.hops[k as int]) {
            Ok(p.hops[k as int])
        } else {
            Err(NackType::ErrorInRouting(p.hops[k as int]))
        }
    } else {
        Err(NackType::DestinationIsDrone)
    }
}

/// A send of `p` to neighbour `n`, with its report.
pub open spec fn sent(n: NodeId, p: PacketView) -> Seq<EffectView> {
    seq![EffectView::Send(n, p), EffectView::PacketSent(p)]
}

/// `p` handed to the controller.
pub open spec fn shortcut(p: PacketView) -> Seq<EffectView> {
    seq![EffectView::ControllerShortcut(p)]
}

/// Forward `p`; if that fails, hand it to the controller.
pub open spec fn forward_or_shortcut(neighbors: Seq<NodeId>, p: PacketView) -> Seq<EffectView> {
    match next_hop(neighbors, p) {
        Ok(n) => sent(n, advanced(p)),
        Err(_) => shortcut(p),
    }
}

/// What a drone does when it cannot forward `p` for reason `t`: a
/// control-plane packet goes to the controller; any other is answered with a
/// NACK back along its route.
pub open spec fn forwarding_error(neighbors: Seq<NodeId>, p: PacketView, t: NackType) -> Seq<
    EffectView,
> {
    if is_control_plane(p.pack_type) {
        shortcut(p)
    } else {
        forward_or_shortcut(neighbors, nack_for(p, t))
    }
}

/// Forward `p` to its next hop; on failure, handle the error.
pub open spec fn safe_forward(neighbors: Seq<NodeId>, p: PacketView) -> Seq<EffectView> {
    match next_hop(neighbors, p) {
        Ok(n) => sent(n, advanced(p)),
        Err(t) => forwarding_error(neighbors, p, t),
    }
}

/// A flood request whose path trace is `trace`, otherwise as `p`.
pub open spec fn with_trace(p: PacketView, trace: Seq<(NodeId, NodeType)>) -> PacketView {
    match p.pack_type {
        PacketTypeView::FloodRequest { flood_id, initiator_id, .. } => PacketView {
            pack_type: PacketTypeView::FloodRequest { flood_id, initiator_id, path_trace: trace },
            ..p
        },
        _ => p,
    }
}

/// A copy of `p` sent to every node of `targets` except `skip`, in order.
pub open spec fn fan_out(targets: Seq<NodeId>, skip: NodeId, p: PacketView) -> Seq<EffectView>
    decreases targets.len(),
{
    if targets.len() == 0 {
        seq![]
    } else {
        let rest = fan_out(targets.drop_last(), skip, p);
        if targets.last() == skip {
            rest
        } else {
            rest + sent(targets.last(), p)
        }
    }
}

/// Some neighbour differs from `prev`.
pub open spec fn has_other_neighbor(neighbors: Seq<NodeId>, prev: NodeId) -> bool {
    exists|i: int| 0 <= i < neighbors.len() && neighbors[i] != prev
}

/// What a flood request does: on the first sighting, with some neighbour
/// besides the previous hop, the request (extended by this drone) goes to all
/// such neighbours; otherwise a flood response goes back along the trace.
pub open spec fn flood_effects(m: DroneModel, p: PacketView) -> Seq<EffectView> {
    match p.pack_type {
        PacketTypeView::FloodRequest { flood_id, initiator_id, path_trace } => {
            let trace = path_trace.push((m.id, NodeType::Drone));
            let prev = path_trace.last().0;
            if !m.seen_floods.contains((flood_id, initiator_id)) && has_other_neighbor(
                m.neighbors,
                prev,
            ) {
                fan_out(m.neighbors, prev, with_trace(p, trace))
            } else {
                safe_forward(m.neighbors, flood_response(p.session_id, flood_id, trace))
            }
        },
        _ => seq![],
    }
}

/// What a source-routed packet (any class but a flood request) does.
pub open spec fn routed_effects(m: DroneModel, p: PacketView, dropped: bool) -> Seq<EffectView> {
    let k = p.hop_index as int;
    if k >= p.hops.len() {
        seq![]
    } else if p.hops[k] != m.id {
        forwarding_error(m.neighbors, p, NackType::UnexpectedRecipient(m.id))
    } else {
        match p.pack_type {
            PacketTypeView::MsgFragment(_) => {
                if m.state == DroneState::Crashing {
                    forwarding_error(m.neighbors, p, NackType::ErrorInRouting(p.hops[k + 1]))
                } else if dropped {
                    forwarding_error(m.neighbors, p, NackType::Dropped) + seq![
                        EffectView::PacketDropped(p),
                    ]
                } else {
                    safe_forward(m.neighbors, p)
                }
            },
            _ => safe_forward(m.neighbors, p),
        }
    }
}

/// Everything a drone in model `m` emits for packet `p`; `dropped` is the
/// outcome of the drop-rate draw for a fragment.
pub open spec fn packet_effects(m: DroneModel, p: PacketView, dropped: bool) -> Seq<EffectView> {
    if p.pack_type is FloodRequest {
        flood_effects(m, p)
    } else {
        routed_effects(m, p, dropped)
    }
}

/// The drone after packet `p`: a flood request's key is remembered.
pub open spec fn after_packet(m: DroneModel, p: PacketView) -> DroneModel {
    match p.pack_type {
        PacketTypeView::FloodRequest { flood_id, initiator_id, .. } => DroneModel {
            seen_floods: m.seen_floods.insert((flood_id, initiator_id)),
            ..m
        },
        _ => m,
    }
}

/// The packets a drone can take: a flood request names at least its
/// initiator in its trace, and a fragment that reaches a crashing drone as
/// its recipient names a next hop.
pub open spec fn processable(m: DroneModel, p: PacketView) -> bool {
    match p.pack_type {
        PacketTypeView::FloodRequest { path_trace, .. } => path_trace.len() > 0,
        PacketTypeView::MsgFragment(_) => {
            (m.state == DroneState::Crashing && p.hop_index < p.hops.len() && p.hops[p.hop_index as int]
                == m.id) ==> p.hop_index + 1 < p.hops.len()
        },
        _ => true,
    }
}

/// The configuration error that command `c` would cause, if any. Commands are
/// checked only while Active: later they are ignored.
pub open spec fn command_error(m: DroneModel, c: Command) -> Option<ConfigError> {
    if m.state != DroneState::Active {
        None
    } else {
        match c {
            Command::AddSender(n) => if n == m.id {
                Some(ConfigError::NeighborIsSelf(n))
            } else if m.neighbors.contains(n) {
                Some(ConfigError::NeighborAlreadyPresent(n))
            } else {
                None
            },
            Command::RemoveSender(n) => if !m.neighbors.contains(n) {
                Some(ConfigError::NotANeighbor(n))
            } else {
                None
            },
            Command::Crash => None,
        }
    }
}

/// The drone after command `c`.
pub open spec fn after_command(m: DroneModel, c: Command) -> DroneModel {
    if m.state != DroneState::Active {
        m
    } else {
        match c {
            Command::AddSender(n) => DroneModel { neighbors: m.neighbors.push(n), ..m },
            Command::RemoveSender(n) => DroneModel { neighbors: m.neighbors.remove_value(n), ..m },
            Command::Crash => DroneModel { state: DroneState::Crashing, ..m },
        }
    }
}

} // verus!
