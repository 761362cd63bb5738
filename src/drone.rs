//! The drone's decision core: the state that its event loop owns, and the
//! handling of each packet and command.
use vstd::prelude::*;
use std::collections::HashSet;
use crate::event::{effects_view, emit, DroneEvent, Effect};
use crate::model::{
    advanced, after_command, after_packet, command_error, fan_out, flood_effects,
    forwarding_error, has_other_neighbor, next_hop, packet_effects, processable, routed_effects,
    safe_forward, sent, shortcut, Command, ConfigError, DroneModel, DroneState,
};
use crate::packet::{
    copy_hops, copy_trace, FloodRequest, Nack, NackType, NodeId, NodeType, Packet, PacketType,
    SourceRoutingHeader,
};
use crate::routing::{new_flood_response, packet_nack};

verus! {

broadcast use vstd::std_specs::hash::group_hash_axioms;

/// The key under which a flood is remembered: the flood id and the initiator
/// id packed into one integer.
pub open spec fn flood_key(flood_id: u64, initiator_id: NodeId) -> u128 {
    (flood_id as int * 256 + initiator_id as int) as u128
}

/// Distinct floods have distinct keys.
pub proof fn lemma_flood_key_injective(f1: u64, i1: NodeId, f2: u64, i2: NodeId)
    ensures
        flood_key(f1, i1) == flood_key(f2, i2) ==> f1 == f2 && i1 == i2,
{
    let (a, b) = (f1 as int, f2 as int);
    assert(a * 256 + i1 == b * 256 + i2 ==> a == b && i1 == i2) by (nonlinear_arith)
        requires
            0 <= i1 < 256,
            0 <= i2 < 256,
    ;
}

/// Computes [`flood_key`].
fn key_of(flood_id: u64, initiator_id: NodeId) -> (r: u128)
    ensures
        r == flood_key(flood_id, initiator_id),
{
    (flood_id as u128) * 256 + (initiator_id as u128)
}

/// The state a drone's event loop owns: its id, its neighbours, the floods it
/// has seen and its life-cycle state. Its model is a [`DroneModel`].
#[derive(Debug)]
pub struct DroneCore {
    id: NodeId,
    neighbors: Vec<NodeId>,
    seen_floods: HashSet<u128>,
    state: DroneState,
}

impl View for DroneCore {
    type V = DroneModel;

    closed spec fn view(&self) -> DroneModel {
        DroneModel {
            id: self.id,
            neighbors: self.neighbors@,
            seen_floods: Set::new(
                |k: (u64, NodeId)| self.seen_floods@.contains(flood_key(k.0, k.1)),
            ),
            state: self.state,
        }
    }
}

impl DroneCore {
    /// A drone with the given id and neighbours, Active, that has seen no
    /// flood.
    pub fn new(id: NodeId, neighbors: Vec<NodeId>) -> (r: DroneCore)
        requires
            !neighbors@.contains(id),
            neighbors@.no_duplicates(),
        ensures
            r@ == (DroneModel {
                id,
                neighbors: neighbors@,
                seen_floods: Set::empty(),
                state: DroneState::Active,
            }),
            r@.inv(),
    {
        let r = DroneCore { id, neighbors, seen_floods: HashSet::new(), state: DroneState::Active };
        assert(r@.seen_floods =~= Set::empty());
        r
    }

    pub fn get_id(&self) -> (r: NodeId)
        ensures
            r == self@.id,
    {
        self.id
    }

    pub fn get_state(&self) -> (r: DroneState)
        ensures
            r == self@.state,
    {
        self.state
    }

    /// Whether `n` is a neighbour.
    pub fn has_neighbor(&self, n: NodeId) -> (r: bool)
        ensures
            r == self@.neighbors.contains(n),
    {
        let mut i: usize = 0;
        while i < self.neighbors.len()
            invariant
                i <= self@.neighbors.len(),
                forall|j: int| 0 <= j < i ==> self@.neighbors[j] != n,
            decreases self@.neighbors.len() - i,
        {
            if self.neighbors[i] == n {
                return true;
            }
            i = i + 1;
        }
        false
    }

    /// Sends `packet` to neighbour `n` and reports it.
    fn send_and_report(&self, n: NodeId, packet: Packet, out: &mut Vec<Effect>)
        ensures
            effects_view(final(out)@) == effects_view(old(out)@) + sent(n, packet@),
    {
        emit(out, Effect::Send(n, packet.duplicate()));
        emit(out, Effect::Event(DroneEvent::PacketSent(packet)));
        assert(effects_view(out@) =~= effects_view(old(out)@) + sent(n, packet@));
    }

    /// Unicast forward: moves `packet` one hop on and sends it to that hop,
    /// or says why it cannot.
    fn forward_packet(&self, packet: &Packet, out: &mut Vec<Effect>) -> (r: Result<(), NackType>)
        requires
            packet@.hop_index < packet@.hops.len(),
        ensures
            match next_hop(self@.neighbors, packet@) {
                Ok(n) => r is Ok && effects_view(final(out)@) == effects_view(old(out)@) + sent(
                    n,
                    advanced(packet@),
                ),
                Err(t) => r == Err::<(), NackType>(t) && final(out)@ == old(out)@,
            },
    {
        let mut next = packet.duplicate();
        let len = next.routing_header.hops.len();
        assert(next.routing_header.hop_index < len);
        next.routing_header.hop_index = next.routing_header.hop_index + 1;
        let k = next.routing_header.hop_index;
        assert(next@ == advanced(packet@));
        if k < len {
            let n = next.routing_header.hops[k];
            if self.has_neighbor(n) {
                self.send_and_report(n, next, out);
                Ok(())
            } else {
                Err(NackType::ErrorInRouting(n))
            }
        } else {
            Err(NackType::DestinationIsDrone)
        }
    }

    /// Handles a failed forward of `packet` for reason `nack_type`: a
    /// control-plane packet goes to the controller, any other is answered
    /// with a NACK.
    fn handle_forwarding_error(&self, packet: &Packet, nack_type: NackType, out: &mut Vec<Effect>)
        requires
            packet@.hop_index < packet@.hops.len(),
        ensures
            effects_view(final(out)@) == effects_view(old(out)@) + forwarding_error(
                self@.neighbors,
                packet@,
                nack_type,
            ),
    {
        match &packet.pack_type {
            PacketType::Ack(_)
            | PacketType::Nack(_)
            | PacketType::FloodResponse(_) => {
                emit(out, Effect::Event(DroneEvent::ControllerShortcut(packet.duplicate())));
                assert(effects_view(out@) =~= effects_view(old(out)@) + shortcut(packet@));
            },
            _ => {
                let nack = packet_nack(
                    packet,
                    Nack { fragment_index: packet.get_fragment_index(), nack_type },
                );
                match self.forward_packet(&nack, out) {
                    Ok(()) => {},
                    Err(_) => {
                        emit(out, Effect::Event(DroneEvent::ControllerShortcut(nack)));
                        assert(effects_view(out@) =~= effects_view(old(out)@) + shortcut(nack@));
                    },
                }
            },
        }
    }

    /// Forwards `packet`, handling a failure as [`forwarding_error`] says.
    fn forward_packet_safe(&self, packet: &Packet, out: &mut Vec<Effect>)
        requires
            packet@.hop_index < packet@.hops.len(),
        ensures
            effects_view(final(out)@) == effects_view(old(out)@) + safe_forward(
                self@.neighbors,
                packet@,
            ),
    {
        match self.forward_packet(packet, out) {
            Ok(()) => {},
            Err(t) => self.handle_forwarding_error(packet, t, out),
        }
    }
    /// Whether some neighbour differs from `prev`.
    fn has_neighbor_other_than(&self, prev: NodeId) -> (r: bool)
        ensures
            r == has_other_neighbor(self@.neighbors, prev),
    {
        let mut i: usize = 0;
        while i < self.neighbors.len()
            invariant
                i <= self@.neighbors.len(),
                forall|j: int| 0 <= j < i ==> self@.neighbors[j] == prev,
            decreases self@.neighbors.len() - i,
        {
            if self.neighbors[i] != prev {
                return true;
            }
            i = i + 1;
        }
        false
    }

    /// Sends a copy of the flood request `packet` to every neighbour but
    /// `prev`, each with its report.
    fn forward_flood_request(&self, packet: &Packet, prev: NodeId, out: &mut Vec<Effect>)
        ensures
            effects_view(final(out)@) == effects_view(old(out)@) + fan_out(
                self@.neighbors,
                prev,
                packet@,
            ),
    {
        let ghost start = effects_view(out@);
        let mut i: usize = 0;
        assert(fan_out(self@.neighbors.take(0), prev, packet@) =~= seq![]);
        assert(start + seq![] =~= start);
        while i < self.neighbors.len()
            invariant
                i <= self@.neighbors.len(),
                start == effects_view(old(out)@),
                effects_view(out@) == start + fan_out(self@.neighbors.take(i as int), prev, packet@),
            decreases self@.neighbors.len() - i,
        {
            let n = self.neighbors[i];
            assert(self@.neighbors.take(i + 1).drop_last() =~= self@.neighbors.take(i as int));
            if n != prev {
                self.send_and_report(n, packet.duplicate(), out);
                assert(effects_view(out@) =~= start + fan_out(
                    self@.neighbors.take(i + 1),
                    prev,
                    packet@,
                ));
            }
            i = i + 1;
        }
        assert(self@.neighbors.take(self@.neighbors.len() as int) =~= self@.neighbors);
    }

    /// Handles a flood request: remembers its key and either propagates it
    /// or answers it with a flood response (see [`flood_effects`]).
    fn handle_flood_request(&mut self, packet: &Packet, out: &mut Vec<Effect>)
        requires
            packet@.pack_type is FloodRequest,
            processable(old(self)@, packet@),
        ensures
            final(self)@ == after_packet(old(self)@, packet@),
            effects_view(final(out)@) == effects_view(old(out)@) + flood_effects(
                old(self)@,
                packet@,
            ),
    {
        match &packet.pack_type {
            PacketType::FloodRequest(req) => {
                let ghost before = self@;
                let prev = req.path_trace[req.path_trace.len() - 1].0;
                let mut trace = copy_trace(&req.path_trace);
                trace.push((self.id, NodeType::Drone));
                let first = self.seen_floods.insert(key_of(req.flood_id, req.initiator_id));
                proof {
                    let key = (req.flood_id, req.initiator_id);
                    assert forall|k: (u64, NodeId)|
                        #![auto]
                        self@.seen_floods.contains(k) == before.seen_floods.insert(key).contains(
                            k,
                        ) by {
                        lemma_flood_key_injective(k.0, k.1, key.0, key.1);
                    }
                    assert(self@.seen_floods =~= before.seen_floods.insert(key));
                    assert(self@ == after_packet(before, packet@));
                }
                if first && self.has_neighbor_other_than(prev) {
                    let request = Packet {
                        pack_type: PacketType::FloodRequest(
                            FloodRequest {
                                flood_id: req.flood_id,
                                initiator_id: req.initiator_id,
                                path_trace: trace,
                            },
                        ),
                        routing_header: SourceRoutingHeader {
                            hop_index: packet.routing_header.hop_index,
                            hops: copy_hops(&packet.routing_header.hops),
                        },
                        session_id: packet.session_id,
                    };
                    self.forward_flood_request(&request, prev, out);
                } else {
                    let response = new_flood_response(packet.session_id, req.flood_id, &trace);
                    self.forward_packet_safe(&response, out);
                }
            },
            _ => {},
        }
    }

    /// Handles a source-routed packet (see [`routed_effects`]).
    fn handle_routed_packet(&self, packet: &Packet, dropped: bool, out: &mut Vec<Effect>)
        requires
            !(packet@.pack_type is FloodRequest),
            processable(self@, packet@),
        ensures
            effects_view(final(out)@) == effects_view(old(out)@) + routed_effects(
                self@,
                packet@,
                dropped,
            ),
    {
        let k = packet.routing_header.hop_index;
        if k >= packet.routing_header.hops.len() {
            // malformed: there is no current hop, the packet is dropped silently
            assert(effects_view(old(out)@) + seq![] =~= effects_view(old(out)@));
            return ;
        }
        if packet.routing_header.hops[k] != self.id {
            self.handle_forwarding_error(packet, NackType::UnexpectedRecipient(self.id), out);
            return ;
        }
        match &packet.pack_type {
            PacketType::MsgFragment(_) => {
                if self.state == DroneState::Crashing {
                    let next = packet.routing_header.hops[k + 1];
                    self.handle_forwarding_error(packet, NackType::ErrorInRouting(next), out);
                } else if dropped {
                    self.handle_forwarding_error(packet, NackType::Dropped, out);
                    emit(out, Effect::Event(DroneEvent::PacketDropped(packet.duplicate())));
                    assert(effects_view(out@) =~= effects_view(old(out)@) + routed_effects(
                        self@,
                        packet@,
                        dropped,
                    ));
                } else {
                    self.forward_packet_safe(packet, out);
                }
            },
            _ => self.forward_packet_safe(packet, out),
        }
    }

    /// Handles one packet. `dropped` is the outcome of the drop-rate draw,
    /// which matters only for a message fragment addressed to this drone.
    /// Returns the effects, in order, for the caller to perform.
    pub fn handle_packet(&mut self, packet: Packet, dropped: bool) -> (r: Vec<Effect>)
        requires
            old(self)@.inv(),
            old(self)@.state != DroneState::Crashed,
            processable(old(self)@, packet@),
        ensures
            final(self)@ == after_packet(old(self)@, packet@),
            final(self)@.inv(),
            old(self)@.seen_floods.subset_of(final(self)@.seen_floods),
            effects_view(r@) == packet_effects(old(self)@, packet@, dropped),
    {
        let mut out: Vec<Effect> = Vec::new();
        assert(effects_view(out@) =~= seq![]);
        match &packet.pack_type {
            PacketType::FloodRequest(_) => {
                self.handle_flood_request(&packet, &mut out);
            },
            _ => {
                self.handle_routed_packet(&packet, dropped, &mut out);
            },
        }
        assert(effects_view(out@) =~= packet_effects(old(self)@, packet@, dropped));
        out
    }
    /// Whether the drone can take `packet` (see [`processable`]): a packet it
    /// cannot take is malformed beyond what the protocol answers.
    pub fn can_process(&self, packet: &Packet) -> (r: bool)
        ensures
            r == processable(self@, packet@),
    {
        match &packet.pack_type {
            PacketType::FloodRequest(req) => req.path_trace.len() > 0,
            PacketType::MsgFragment(_) => {
                let k = packet.routing_header.hop_index;
                let len = packet.routing_header.hops.len();
                if self.state == DroneState::Crashing && k < len && packet.routing_header.hops[k]
                    == self.id {
                    k + 1 < len
                } else {
                    true
                }
            },
            _ => true,
        }
    }

    /// Whether the flood `(flood_id, initiator_id)` has been seen.
    pub fn has_seen_flood(&self, flood_id: u64, initiator_id: NodeId) -> (r: bool)
        ensures
            r == self@.seen_floods.contains((flood_id, initiator_id)),
    {
        self.seen_floods.contains(&key_of(flood_id, initiator_id))
    }

    /// The neighbours, in the order in which they became known.
    pub fn neighbors(&self) -> (r: Vec<NodeId>)
        ensures
            r@ == self@.neighbors,
    {
        copy_hops(&self.neighbors)
    }

    /// The configuration error that `command` would cause, if any (see
    /// [`command_error`]).
    pub fn check_command(&self, command: Command) -> (r: Result<(), ConfigError>)
        ensures
            match command_error(self@, command) {
                Some(e) => r == Err::<(), ConfigError>(e),
                None => r is Ok,
            },
    {
        if self.state != DroneState::Active {
            return Ok(());
        }
        match command {
            Command::AddSender(n) => {
                if n == self.id {
                    Err(ConfigError::NeighborIsSelf(n))
                } else if self.has_neighbor(n) {
                    Err(ConfigError::NeighborAlreadyPresent(n))
                } else {
                    Ok(())
                }
            },
            Command::RemoveSender(n) => {
                if self.has_neighbor(n) {
                    Ok(())
                } else {
                    Err(ConfigError::NotANeighbor(n))
                }
            },
            Command::Crash => Ok(()),
        }
    }

    /// Applies a command that [`check_command`](Self::check_command) accepts.
    /// While the drone is not Active, commands are ignored.
    pub fn handle_command(&mut self, command: Command)
        requires
            old(self)@.inv(),
            command_error(old(self)@, command) is None,
        ensures
            final(self)@ == after_command(old(self)@, command),
            final(self)@.inv(),
            final(self)@.seen_floods == old(self)@.seen_floods,
    {
        if self.state != DroneState::Active {
            return ;
        }
        match command {
            Command::AddSender(n) => self.add_neighbor(n),
            Command::RemoveSender(n) => self.remove_neighbor(n),
            Command::Crash => self.state = DroneState::Crashing,
        }
    }

    fn add_neighbor(&mut self, n: NodeId)
        requires
            old(self)@.inv(),
            n != old(self)@.id,
            !old(self)@.neighbors.contains(n),
        ensures
            final(self)@ == (DroneModel { neighbors: old(self)@.neighbors.push(n), ..old(self)@ }),
            final(self)@.inv(),
    {
        self.neighbors.push(n);
        proof {
            let s = self@.neighbors;
            assert(s.last() == n);
            assert forall|i: int| 0 <= i < s.len() - 1 implies s[i] == old(self)@.neighbors[i] by {}
            assert(!s.contains(self.id)) by {
                if s.contains(self.id) {
                    let i = choose|i: int| 0 <= i < s.len() && s[i] == self.id;
                    if i < s.len() - 1 {
                        assert(old(self)@.neighbors.contains(self.id));
                    }
                }
            }
            assert forall|i: int, j: int|
                0 <= i < s.len() && 0 <= j < s.len() && i != j implies s[i] != s[j] by {
                if i == s.len() - 1 {
                    assert(old(self)@.neighbors.contains(s[j]));
                } else if j == s.len() - 1 {
                    assert(old(self)@.neighbors.contains(s[i]));
                }
            }
        }
    }

    fn remove_neighbor(&mut self, n: NodeId)
        requires
            old(self)@.inv(),
            old(self)@.neighbors.contains(n),
        ensures
            final(self)@ == (DroneModel {
                neighbors: old(self)@.neighbors.remove_value(n),
                ..old(self)@
            }),
            final(self)@.inv(),
    {
        let ghost s0 = self@.neighbors;
        let mut i: usize = 0;
        while i < self.neighbors.len() && self.neighbors[i] != n
            invariant
                self@.neighbors == s0,
                i <= s0.len(),
                forall|j: int| 0 <= j < i ==> s0[j] != n,
            decreases s0.len() - i,
        {
            i = i + 1;
        }
        assert(i < s0.len());
        proof {
            s0.index_of_first_ensures(n);
        }
        self.neighbors.remove(i);
        proof {
            let s = self@.neighbors;
            assert(s =~= s0.remove(i as int));
            assert(s == s0.remove_value(n));
            assert forall|a: int| 0 <= a < s.len() implies (a < i ==> s[a] == s0[a]) && (a >= i
                ==> s[a] == s0[a + 1]) by {}
            assert(!s.contains(self.id)) by {
                if s.contains(self.id) {
                    let a = choose|a: int| 0 <= a < s.len() && s[a] == self.id;
                    if a < i {
                        assert(s0[a] == self.id);
                    } else {
                        assert(s0[a + 1] == self.id);
                    }
                }
            }
            assert forall|a: int, b: int|
                0 <= a < s.len() && 0 <= b < s.len() && a != b implies s[a] != s[b] by {
                let a0 = if a < i { a } else { a + 1 };
                let b0 = if b < i { b } else { b + 1 };
                assert(s[a] == s0[a0] && s[b] == s0[b0]);
            }
        }
    }

    /// Ends the graceful shutdown once the packet endpoint is closed.
    pub fn finish_crash(&mut self)
        requires
            old(self)@.state == DroneState::Crashing,
        ensures
            final(self)@ == (DroneModel { state: DroneState::Crashed, ..old(self)@ }),
    {
        self.state = DroneState::Crashed;
    }
}

} // verus!
