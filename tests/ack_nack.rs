use dronegowski::{
    Ack, Command, DroneCore, DroneEvent, Effect, Nack, NackType, NodeId, Packet, PacketType,
    SourceRoutingHeader,
};

fn ack(hop_index: usize, hops: Vec<NodeId>) -> Packet {
    Packet {
        pack_type: PacketType::Ack(Ack { fragment_index: 0 }),
        routing_header: SourceRoutingHeader { hop_index, hops },
        session_id: 1,
    }
}

fn nack(hop_index: usize, hops: Vec<NodeId>) -> Packet {
    Packet {
        pack_type: PacketType::Nack(Nack { fragment_index: 0, nack_type: NackType::DestinationIsDrone }),
        routing_header: SourceRoutingHeader { hop_index, hops },
        session_id: 1,
    }
}

fn sent(to: NodeId, p: Packet) -> Vec<Effect> {
    vec![Effect::Send(to, p.clone()), Effect::Event(DroneEvent::PacketSent(p))]
}

#[test]
fn send_ack_to_neighbor() {
    let mut drone = DroneCore::new(1, vec![2]);
    let effects = drone.handle_packet(ack(0, vec![1, 2]), false);
    assert_eq!(effects, sent(2, ack(1, vec![1, 2])));
}

#[test]
fn send_nack_to_neighbor() {
    let mut drone = DroneCore::new(1, vec![2]);
    let effects = drone.handle_packet(nack(0, vec![1, 2]), false);
    assert_eq!(effects, sent(2, nack(1, vec![1, 2])));
}

#[test]
fn forward_ack_no_neighbor() {
    let mut drone = DroneCore::new(1, vec![]);
    let effects = drone.handle_packet(ack(0, vec![1, 2]), false);
    assert_eq!(effects, vec![Effect::Event(DroneEvent::ControllerShortcut(ack(0, vec![1, 2])))]);
}

#[test]
fn forward_nack_no_neighbor() {
    let mut drone = DroneCore::new(1, vec![]);
    let effects = drone.handle_packet(nack(0, vec![1, 2]), false);
    assert_eq!(effects, vec![Effect::Event(DroneEvent::ControllerShortcut(nack(0, vec![1, 2])))]);
}

#[test]
fn ack_is_never_dropped() {
    let mut drone = DroneCore::new(1, vec![2]);
    let effects = drone.handle_packet(ack(0, vec![1, 2]), true);
    assert_eq!(effects, sent(2, ack(1, vec![1, 2])));
}

#[test]
fn misrouted_ack_goes_to_controller_unchanged() {
    let mut drone = DroneCore::new(1, vec![2, 3]);
    let effects = drone.handle_packet(ack(0, vec![3, 2]), false);
    assert_eq!(effects, vec![Effect::Event(DroneEvent::ControllerShortcut(ack(0, vec![3, 2])))]);
}

#[test]
fn ack_at_destination_goes_to_controller() {
    let mut drone = DroneCore::new(2, vec![1]);
    let effects = drone.handle_packet(ack(1, vec![1, 2]), false);
    assert_eq!(effects, vec![Effect::Event(DroneEvent::ControllerShortcut(ack(1, vec![1, 2])))]);
}

#[test]
fn crashing_drone_still_forwards_ack() {
    let mut drone = DroneCore::new(1, vec![2]);
    drone.handle_command(Command::Crash);
    let effects = drone.handle_packet(ack(0, vec![1, 2]), false);
    assert_eq!(effects, sent(2, ack(1, vec![1, 2])));
}
