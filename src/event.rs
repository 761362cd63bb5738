//! What a drone hands back to its runner: sends to neighbours and events for
//! the simulation controller.
use vstd::prelude::*;
use crate::packet::{NodeId, Packet, PacketView};

verus! {

/// Telemetry that a drone reports to the simulation controller.
#[derive(Clone, Debug, PartialEq, Eq)]
pub enum DroneEvent {
    /// A packet went out to a neighbour.
    PacketSent(Packet),
    /// A message fragment was dropped by the drop-rate gate.
    PacketDropped(Packet),
    /// A control-plane packet that could not be forwarded, for the controller
    /// to deliver out of band.
    ControllerShortcut(Packet),
}

/// One thing for the runner to do, in order.
#[derive(Clone, Debug, PartialEq, Eq)]
pub enum Effect {
    /// Send the packet on the endpoint of the given neighbour.
    Send(NodeId, Packet),
    /// Report the event to the simulation controller.
    Event(DroneEvent),
}

/// Mathematical model of an [`Effect`].
pub enum EffectView {
    Send(NodeId, PacketView),
    PacketSent(PacketView),
    PacketDropped(PacketView),
    ControllerShortcut(PacketView),
}

impl View for Effect {
    type V = EffectView;

    open spec fn view(&self) -> EffectView {
        match self {
            Effect::Send(n, p) => EffectView::Send(*n, p@),
            Effect::Event(DroneEvent::PacketSent(p)) => EffectView::PacketSent(p@),
            Effect::Event(DroneEvent::PacketDropped(p)) => EffectView::PacketDropped(p@),
            Effect::Event(DroneEvent::ControllerShortcut(p)) => EffectView::ControllerShortcut(p@),
        }
    }
}

/// The models of a sequence of effects.
pub open spec fn effects_view(s: Seq<Effect>) -> Seq<EffectView> {
    s.map_values(|e: Effect| e@)
}

/// Appends `e` to `out`.
pub fn emit(out: &mut Vec<Effect>, e: Effect)
    ensures
        effects_view(final(out)@) == effects_view(old(out)@).push(e@),
{
    out.push(e);
    assert(effects_view(out@) =~= effects_view(old(out)@).push(e@));
}

} // verus!
