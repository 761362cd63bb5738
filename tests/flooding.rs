use dronegowski::{
    DroneCore, DroneEvent, Effect, FloodRequest, FloodResponse, NodeId, NodeType, Packet,
    PacketType, SourceRoutingHeader,
};

fn request(flood_id: u64, initiator_id: NodeId, path_trace: Vec<(NodeId, NodeType)>) -> Packet {
    Packet {
        pack_type: PacketType::FloodRequest(FloodRequest { flood_id, initiator_id, path_trace }),
        routing_header: SourceRoutingHeader { hop_index: 0, hops: vec![] },
        session_id: 1,
    }
}

fn response(
    flood_id: u64,
    path_trace: Vec<(NodeId, NodeType)>,
    hop_index: usize,
    hops: Vec<NodeId>,
) -> Packet {
    Packet {
        pack_type: PacketType::FloodResponse(FloodResponse { flood_id, path_trace }),
        routing_header: SourceRoutingHeader { hop_index, hops },
        session_id: 1,
    }
}

fn sent(to: NodeId, p: Packet) -> Vec<Effect> {
    vec![Effect::Send(to, p.clone()), Effect::Event(DroneEvent::PacketSent(p))]
}

#[test]
fn test_flood_request() {
    let mut drone = DroneCore::new(1, vec![2]);
    let effects = drone.handle_packet(request(123, 0, vec![(0, NodeType::Client)]), false);
    let expected = request(123, 0, vec![(0, NodeType::Client), (1, NodeType::Drone)]);
    assert_eq!(effects, sent(2, expected));
}

#[test]
fn test_flood_request_no_neighbour() {
    let mut drone = DroneCore::new(1, vec![0]);
    let effects = drone.handle_packet(request(123, 0, vec![(0, NodeType::Drone)]), false);
    let expected =
        response(123, vec![(0, NodeType::Drone), (1, NodeType::Drone)], 1, vec![1, 0]);
    assert_eq!(effects, sent(0, expected));
}

#[test]
fn test_flood_request_already_received() {
    let mut drone = DroneCore::new(1, vec![0, 2]);
    let first = drone.handle_packet(request(123, 0, vec![(0, NodeType::Drone)]), false);
    let forwarded = request(123, 0, vec![(0, NodeType::Drone), (1, NodeType::Drone)]);
    assert_eq!(first, sent(2, forwarded));
    let again = drone.handle_packet(request(123, 0, vec![(0, NodeType::Drone)]), false);
    let expected =
        response(123, vec![(0, NodeType::Drone), (1, NodeType::Drone)], 1, vec![1, 0]);
    assert_eq!(again, sent(0, expected));
}

#[test]
fn send_flood_response_to_neighbor() {
    let trace = vec![(2, NodeType::Client), (1, NodeType::Drone), (0, NodeType::Drone)];
    let mut drone = DroneCore::new(1, vec![2]);
    let effects = drone.handle_packet(response(0, trace.clone(), 1, vec![0, 1, 2]), false);
    assert_eq!(effects, sent(2, response(0, trace, 2, vec![0, 1, 2])));
}

#[test]
fn forward_flood_response_no_neighbor() {
    let trace = vec![(2, NodeType::Client), (1, NodeType::Drone), (0, NodeType::Drone)];
    let mut drone = DroneCore::new(1, vec![]);
    let packet = response(0, trace, 0, vec![1, 2]);
    let effects = drone.handle_packet(packet.clone(), false);
    assert_eq!(effects, vec![Effect::Event(DroneEvent::ControllerShortcut(packet))]);
}

#[test]
fn flood_fan_out_skips_previous_hop() {
    let mut drone = DroneCore::new(1, vec![0, 2, 3]);
    assert!(!drone.has_seen_flood(7, 0));
    let effects = drone.handle_packet(request(7, 0, vec![(0, NodeType::Client)]), false);
    assert!(drone.has_seen_flood(7, 0));
    let forwarded = request(7, 0, vec![(0, NodeType::Client), (1, NodeType::Drone)]);
    let mut expected = sent(2, forwarded.clone());
    expected.extend(sent(3, forwarded));
    assert_eq!(effects, expected);
}

#[test]
fn flood_repeat_answers_once_toward_sender() {
    let mut drone = DroneCore::new(1, vec![0, 2, 3]);
    drone.handle_packet(request(7, 0, vec![(0, NodeType::Client)]), false);
    // The copy sent to 2 comes back, extended by 2.
    let again = request(
        7,
        0,
        vec![(0, NodeType::Client), (1, NodeType::Drone), (2, NodeType::Drone)],
    );
    let effects = drone.handle_packet(again, false);
    let trace = vec![
        (0, NodeType::Client),
        (1, NodeType::Drone),
        (2, NodeType::Drone),
        (1, NodeType::Drone),
    ];
    assert_eq!(effects, sent(2, response(7, trace, 1, vec![1, 2, 1, 0])));
}

#[test]
fn flood_repeat_of_same_request_extends_trace_twice() {
    let mut drone = DroneCore::new(1, vec![0, 2, 3]);
    let packet = request(7, 0, vec![(0, NodeType::Client), (1, NodeType::Drone)]);
    drone.handle_packet(request(7, 0, vec![(0, NodeType::Client)]), false);
    let effects = drone.handle_packet(packet, false);
    let trace = vec![(0, NodeType::Client), (1, NodeType::Drone), (1, NodeType::Drone)];
    // The first real hop of the response is this drone itself, not a neighbour.
    assert_eq!(
        effects,
        vec![Effect::Event(DroneEvent::ControllerShortcut(response(7, trace, 0, vec![1, 1, 0])))]
    );
}

#[test]
fn floods_are_keyed_by_initiator() {
    let mut drone = DroneCore::new(1, vec![0, 2]);
    drone.handle_packet(request(7, 0, vec![(0, NodeType::Client)]), false);
    assert!(!drone.has_seen_flood(7, 5));
    let effects = drone.handle_packet(request(7, 5, vec![(5, NodeType::Client)]), false);
    let forwarded = request(7, 5, vec![(5, NodeType::Client), (1, NodeType::Drone)]);
    let mut expected = sent(0, forwarded.clone());
    expected.extend(sent(2, forwarded));
    assert_eq!(effects, expected);
    assert!(drone.has_seen_flood(7, 5));
}

#[test]
fn flood_with_no_neighbours_answers_to_controller() {
    let mut drone = DroneCore::new(1, vec![]);
    let effects = drone.handle_packet(request(9, 4, vec![(4, NodeType::Client)]), false);
    let trace = vec![(4, NodeType::Client), (1, NodeType::Drone)];
    assert_eq!(
        effects,
        vec![Effect::Event(DroneEvent::ControllerShortcut(response(9, trace, 0, vec![1, 4])))]
    );
}

#[test]
fn flood_request_without_trace_is_refused() {
    let drone = DroneCore::new(1, vec![2]);
    assert!(!drone.can_process(&request(1, 0, vec![])));
    assert!(drone.can_process(&request(1, 0, vec![(0, NodeType::Client)])));
}
