use dronegowski::{
    Ack, Command, DroneCore, DroneEvent, Effect, FloodRequest, Fragment, NodeId, NodeType, Packet,
    PacketType, SourceRoutingHeader,
};

fn routed(pack_type: PacketType, hop_index: usize, hops: Vec<NodeId>) -> Packet {
    Packet { pack_type, routing_header: SourceRoutingHeader { hop_index, hops }, session_id: 4 }
}

fn fragment_type() -> PacketType {
    PacketType::MsgFragment(Fragment {
        fragment_index: 3,
        total_n_fragments: 4,
        length: 128,
        data: [1; 128],
    })
}

fn flood(flood_id: u64, path_trace: Vec<(NodeId, NodeType)>) -> Packet {
    routed(
        PacketType::FloodRequest(FloodRequest { flood_id, initiator_id: 0, path_trace }),
        0,
        vec![],
    )
}

fn every_send_reported(effects: &[Effect]) -> bool {
    effects.iter().enumerate().all(|(i, e)| match e {
        Effect::Send(_, p) => {
            effects.get(i + 1) == Some(&Effect::Event(DroneEvent::PacketSent(p.clone())))
        },
        _ => true,
    })
}

#[test]
fn sends_are_reported_across_packet_classes() {
    let mut drone = DroneCore::new(1, vec![0, 2, 3]);
    let packets = vec![
        routed(fragment_type(), 1, vec![0, 1, 2]),
        routed(fragment_type(), 1, vec![0, 1, 9]),
        routed(fragment_type(), 1, vec![0, 7]),
        routed(PacketType::Ack(Ack { fragment_index: 0 }), 1, vec![0, 1, 3]),
        flood(5, vec![(0, NodeType::Client)]),
        flood(5, vec![(0, NodeType::Client)]),
    ];
    for p in packets {
        for dropped in [false, true] {
            let effects = drone.handle_packet(p.clone(), dropped);
            assert!(every_send_reported(&effects));
        }
    }
}

#[test]
fn forwarded_packet_moves_one_hop() {
    let mut drone = DroneCore::new(2, vec![1, 3]);
    let p = routed(fragment_type(), 2, vec![0, 1, 2, 3, 4]);
    let effects = drone.handle_packet(p, false);
    assert_eq!(effects[0], Effect::Send(3, routed(fragment_type(), 3, vec![0, 1, 2, 3, 4])));
}

#[test]
fn seen_floods_only_grow() {
    let mut drone = DroneCore::new(1, vec![2]);
    drone.handle_packet(flood(1, vec![(0, NodeType::Client)]), false);
    drone.handle_command(Command::AddSender(3));
    drone.handle_packet(routed(fragment_type(), 1, vec![0, 1, 2]), false);
    drone.handle_command(Command::RemoveSender(3));
    drone.handle_packet(flood(2, vec![(0, NodeType::Client)]), false);
    assert!(drone.has_seen_flood(1, 0));
    assert!(drone.has_seen_flood(2, 0));
    assert!(!drone.has_seen_flood(3, 0));
}

#[test]
fn drone_never_becomes_its_own_neighbour() {
    let mut drone = DroneCore::new(1, vec![2]);
    assert!(drone.check_command(Command::AddSender(1)).is_err());
    drone.handle_command(Command::AddSender(3));
    assert!(!drone.neighbors().contains(&1));
    assert!(drone.has_neighbor(3));
    assert!(!drone.has_neighbor(1));
}

#[test]
fn flood_key_separates_large_ids() {
    let mut drone = DroneCore::new(1, vec![]);
    drone.handle_packet(
        routed(
            PacketType::FloodRequest(FloodRequest {
                flood_id: u64::MAX,
                initiator_id: 255,
                path_trace: vec![(255, NodeType::Client)],
            }),
            0,
            vec![],
        ),
        false,
    );
    assert!(drone.has_seen_flood(u64::MAX, 255));
    assert!(!drone.has_seen_flood(u64::MAX, 254));
    assert!(!drone.has_seen_flood(u64::MAX - 1, 255));
}

