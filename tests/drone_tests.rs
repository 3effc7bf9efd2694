use rustbusters_drone::{
    Ack, Action, DroneCommand, DroneEvent, FloodRequest, Fragment, Nack, NackType, NodeId,
    NodeType, Packet, PacketType, RustBustersDrone, SourceRoutingHeader, FRAGMENT_DSIZE,
    PACKET_CONST,
};
use std::collections::HashMap;
use std::collections::VecDeque;

const RB_DRONE_ID: NodeId = 10;
const UNKNOWN_NODE: NodeId = 99;

/// A neighbor link as the tests see it: open, or closed as if its receiving
/// end had been dropped.
#[derive(Clone, Copy, Debug, PartialEq)]
struct Link {
    open: bool,
}

/// What the network saw while the drone's actions were carried out.
struct Net {
    received: Vec<(NodeId, Packet)>,
    events: Vec<DroneEvent>,
}

impl Net {
    fn at(&self, n: NodeId) -> Vec<Packet> {
        self.received.iter().filter(|(to, _)| *to == n).map(|(_, p)| p.clone()).collect()
    }
}

fn setup_drone() -> RustBustersDrone<Link> {
    RustBustersDrone::new(RB_DRONE_ID, HashMap::new(), 10)
}

fn add_neighbor(drone: &mut RustBustersDrone<Link>, n: NodeId, open: bool) {
    drone.handle_command(DroneCommand::AddSender(n, Link { open }));
}

/// Carries out the drone's pending actions, reporting closed or missing
/// links back to it.
fn settle(drone: &mut RustBustersDrone<Link>) -> Net {
    let mut net = Net { received: Vec::new(), events: Vec::new() };
    let mut queue: VecDeque<Action> = drone.take_actions().into();
    while let Some(action) = queue.pop_front() {
        match action {
            Action::Send { to, packet, report } => {
                let open = drone.sender(to).map(|l| l.open).unwrap_or(false);
                if open {
                    net.received.push((to, packet.clone()));
                    if report {
                        net.events.push(DroneEvent::PacketSent(packet));
                    }
                } else {
                    drone.link_failed(to, packet, true);
                    let mut more: VecDeque<Action> = drone.take_actions().into();
                    more.extend(queue);
                    queue = more;
                }
            }
            Action::Emit(event) => net.events.push(event),
        }
    }
    net
}

fn fragment() -> Fragment {
    Fragment {
        fragment_index: 0,
        total_n_fragments: 1,
        data: [0; FRAGMENT_DSIZE],
        length: FRAGMENT_DSIZE as u8,
    }
}

fn packet(pack_type: PacketType, hop_index: usize, hops: Vec<NodeId>, session_id: u64) -> Packet {
    Packet { pack_type, routing_header: SourceRoutingHeader { hop_index, hops }, session_id }
}

fn nack_of(p: &Packet) -> Nack {
    match &p.pack_type {
        PacketType::Nack(n) => *n,
        other => panic!("Unexpected packet: {:?}", other),
    }
}

fn flood_request(path_trace: Vec<(NodeId, NodeType)>) -> FloodRequest {
    FloodRequest { flood_id: 123, initiator_id: 1, path_trace }
}

#[test]
fn test_forward_packet_invalid_hop_index() {
    let mut drone = setup_drone();
    add_neighbor(&mut drone, 5, true);
    add_neighbor(&mut drone, 2, true);
    let p = packet(PacketType::MsgFragment(fragment()), 10, vec![5, drone.id(), 2, 3], 123);
    drone.forward_packet(p, false);
    let net = settle(&mut drone);
    let got = net.at(5);
    assert_eq!(got.len(), 1);
    let nack = nack_of(&got[0]);
    assert_eq!(nack.fragment_index, 0);
    assert_eq!(nack.nack_type, NackType::UnexpectedRecipient(RB_DRONE_ID));
}

#[test]
fn test_forward_packet_with_non_corresponding_hop_index() {
    let mut drone = setup_drone();
    add_neighbor(&mut drone, 1, true);
    let p = packet(PacketType::MsgFragment(fragment()), 2, vec![1, drone.id(), 2, 3], 123);
    drone.forward_packet(p, false);
    let net = settle(&mut drone);
    let got = net.at(1);
    assert_eq!(got.len(), 1);
    let nack = nack_of(&got[0]);
    assert_eq!(nack.fragment_index, 0);
    assert_eq!(nack.nack_type, NackType::UnexpectedRecipient(drone.id()));
    match &net.events[0] {
        DroneEvent::PacketSent(sent) => {
            let nack = nack_of(sent);
            assert_eq!(nack.fragment_index, 0);
            // The Nack names the drone that received the packet by mistake.
            assert_eq!(nack.nack_type, NackType::UnexpectedRecipient(drone.id()));
        }
        event => panic!("Unexpected event: {:?}", event),
    }
}

#[test]
fn test_forward_packet_after_crash() {
    let mut drone = setup_drone();
    add_neighbor(&mut drone, 1, true);
    add_neighbor(&mut drone, 3, true);
    drone.handle_command(DroneCommand::Crash);
    let p = packet(PacketType::MsgFragment(fragment()), 1, vec![1, RB_DRONE_ID, 3], 123);
    drone.forward_packet(p, false);
    let net = settle(&mut drone);
    let got = net.at(1);
    assert_eq!(got.len(), 1);
    let nack = nack_of(&got[0]);
    assert_eq!(nack.fragment_index, 0);
    assert_eq!(nack.nack_type, NackType::ErrorInRouting(RB_DRONE_ID));
    assert!(net.at(3).is_empty());
}

#[test]
fn test_forward_packet_when_drone_is_destination() {
    let mut drone = setup_drone();
    add_neighbor(&mut drone, 1, true);
    let p = packet(PacketType::MsgFragment(fragment()), 1, vec![1, drone.id()], 123);
    drone.forward_packet(p, false);
    let net = settle(&mut drone);
    let got = net.at(1);
    assert_eq!(got.len(), 1);
    let nack = nack_of(&got[0]);
    assert_eq!(nack.nack_type, NackType::DestinationIsDrone);
    assert_eq!(nack.fragment_index, 0);
    assert_eq!(got[0].session_id, 123);
}

#[test]
fn test_forward_packet_when_next_hop_is_not_neighbor() {
    let mut drone = setup_drone();
    add_neighbor(&mut drone, 1, true);
    let p = packet(PacketType::MsgFragment(fragment()), 1, vec![1, drone.id(), 3], 123);
    drone.forward_packet(p, false);
    let net = settle(&mut drone);
    let got = net.at(1);
    assert_eq!(got.len(), 1);
    let nack = nack_of(&got[0]);
    assert_eq!(nack.fragment_index, 0);
    assert_eq!(nack.nack_type, NackType::ErrorInRouting(3));
}

#[test]
fn test_forward_nack_without_hunt_mode() {
    let mut drone = setup_drone();
    add_neighbor(&mut drone, 1, true);
    add_neighbor(&mut drone, 3, true);
    let nack = Nack { fragment_index: 0, nack_type: NackType::Dropped };
    let p = packet(PacketType::Nack(nack), 1, vec![1, drone.id(), 3], 123);
    drone.forward_packet(p, false);
    let net = settle(&mut drone);
    let got = net.at(3);
    assert_eq!(got.len(), 1);
    let nack = nack_of(&got[0]);
    assert_eq!(nack.nack_type, NackType::Dropped);
    assert_eq!(nack.fragment_index, 0);
    assert_eq!(got[0].session_id, 123);
}

#[test]
fn test_forward_nack_with_hunt_mode() {
    let mut drone = setup_drone();
    add_neighbor(&mut drone, 2, true);
    add_neighbor(&mut drone, 3, true);
    drone.set_hunt_mode(true);
    let nack = Nack { fragment_index: 0, nack_type: NackType::Dropped };
    let p = packet(PacketType::Nack(nack), 2, vec![1, 2, drone.id(), 3], 123);
    drone.forward_packet(p, false);
    let net = settle(&mut drone);
    let got = net.at(3);
    assert_eq!(got.len(), 1);
    let nack = nack_of(&got[0]);
    assert_eq!(nack.nack_type, NackType::Dropped);
    assert_eq!(nack.fragment_index, 0);
    assert_eq!(got[0].session_id, 123);
    match &net.events[0] {
        DroneEvent::PacketSent(p) => match &p.pack_type {
            PacketType::MsgFragment(fragment) => {
                assert_eq!(fragment.fragment_index, 0);
                assert_eq!(fragment.total_n_fragments, 0);
                assert_eq!(fragment.length, PACKET_CONST);
                assert_eq!(fragment.data[0], drone.id());
                assert_eq!(fragment.data[1], 1);
            }
            other => panic!("Unexpected packet: {:?}", other),
        },
        event => panic!("Unexpected event: {:?}", event),
    }
}

#[test]
fn test_forward_nack_ack_or_flood_response_without_optimized_routing() {
    let mut drone = setup_drone();
    add_neighbor(&mut drone, 1, true);
    add_neighbor(&mut drone, 3, true);
    add_neighbor(&mut drone, 4, true);
    let p = packet(PacketType::Ack(Ack { fragment_index: 0 }), 1, vec![1, drone.id(), 3, 6, 7, 4, 5], 123);
    drone.forward_packet(p, false);
    let net = settle(&mut drone);
    let got = net.at(3);
    assert_eq!(got.len(), 1);
    assert_eq!(got[0].pack_type, PacketType::Ack(Ack { fragment_index: 0 }));
    assert_eq!(got[0].session_id, 123);
    assert!(net.at(4).is_empty());
}

#[test]
fn test_forward_nack_or_flood_response_with_optimized_routing() {
    let mut drone = setup_drone();
    add_neighbor(&mut drone, 1, true);
    add_neighbor(&mut drone, 3, true);
    add_neighbor(&mut drone, 4, true);
    drone.set_optimized_routing(true);
    let nack = Nack { fragment_index: 0, nack_type: NackType::DestinationIsDrone };
    let p = packet(PacketType::Nack(nack), 1, vec![1, drone.id(), 3, 6, 7, 4, 5], 123);
    drone.forward_packet(p, false);
    let net = settle(&mut drone);
    let got = net.at(4);
    assert_eq!(got.len(), 1);
    let nack = nack_of(&got[0]);
    assert_eq!(nack.fragment_index, 0);
    assert_eq!(nack.nack_type, NackType::DestinationIsDrone);
    assert_eq!(got[0].session_id, 123);
    assert!(net.at(3).is_empty());
}

#[test]
fn test_forward_ack_with_optimized_routing() {
    let mut drone = setup_drone();
    add_neighbor(&mut drone, 1, true);
    add_neighbor(&mut drone, 3, true);
    drone.set_optimized_routing(true);
    let p = packet(PacketType::Ack(Ack { fragment_index: 0 }), 1, vec![1, drone.id(), 3, 6, 7, 4, 5], 123);
    drone.forward_packet(p, false);
    let net = settle(&mut drone);
    let got = net.at(3);
    assert_eq!(got.len(), 1);
    assert_eq!(got[0].pack_type, PacketType::Ack(Ack { fragment_index: 0 }));
    assert_eq!(got[0].session_id, 123);
}

#[test]
fn test_forward_nack_ack_or_flood_response_when_neighbor_channel_closed() {
    let mut drone = setup_drone();
    add_neighbor(&mut drone, 1, true);
    add_neighbor(&mut drone, 3, false);
    let p = packet(PacketType::Ack(Ack { fragment_index: 3243 }), 1, vec![1, drone.id(), 3], 123);
    drone.forward_packet(p, false);
    let net = settle(&mut drone);
    match &net.events[0] {
        DroneEvent::ControllerShortcut(p) => {
            assert_eq!(p.session_id, 123);
            assert_eq!(p.pack_type, PacketType::Ack(Ack { fragment_index: 3243 }));
        }
        event => panic!("Unexpected event: {:?}", event),
    }
    assert!(!drone.is_neighbor(UNKNOWN_NODE));
    assert!(!drone.is_neighbor(3));
}

#[test]
fn test_forward_nack_ack_or_flood_response_when_neighbor_is_removed_after_first_check() {
    let mut drone = setup_drone();
    add_neighbor(&mut drone, 1, true);
    add_neighbor(&mut drone, 3, false);
    let p = packet(PacketType::Ack(Ack { fragment_index: 3243 }), 1, vec![1, drone.id(), 4, 3], 123);
    drone.forward_other_packet(p);
    let net = settle(&mut drone);
    match &net.events[0] {
        DroneEvent::ControllerShortcut(p) => {
            assert_eq!(p.session_id, 123);
            assert_eq!(p.pack_type, PacketType::Ack(Ack { fragment_index: 3243 }));
        }
        event => panic!("Unexpected event: {:?}", event),
    }
    assert!(!drone.is_neighbor(UNKNOWN_NODE));
}

#[test]
fn test_forward_fragment_with_100_as_pdr() {
    let mut drone = setup_drone();
    add_neighbor(&mut drone, 1, true);
    add_neighbor(&mut drone, 5, true);
    drone.handle_command(DroneCommand::SetPacketDropRate(100));
    let p = packet(PacketType::MsgFragment(fragment()), 1, vec![1, drone.id(), 5], 123);
    drone.forward_packet(p, false);
    let net = settle(&mut drone);
    let got = net.at(1);
    assert_eq!(got.len(), 1);
    let nack = nack_of(&got[0]);
    assert_eq!(nack.fragment_index, 0);
    assert_eq!(nack.nack_type, NackType::Dropped);
    assert_eq!(got[0].session_id, 123);
    let dropped: Vec<&Packet> = net
        .events
        .iter()
        .filter_map(|e| match e {
            DroneEvent::PacketDropped(p) => Some(p),
            _ => None,
        })
        .collect();
    assert_eq!(dropped.len(), 1);
    match &dropped[0].pack_type {
        PacketType::MsgFragment(fragment) => {
            assert_eq!(fragment.fragment_index, 0);
            assert_eq!(fragment.total_n_fragments, 1);
            assert_eq!(fragment.length, FRAGMENT_DSIZE as u8);
            assert_eq!(fragment.data[0], 0);
        }
        other => panic!("Unexpected packet: {:?}", other),
    }
    assert!(net.at(5).is_empty());
}

#[test]
fn test_forward_fragment_with_0_as_pdr() {
    let mut drone = setup_drone();
    add_neighbor(&mut drone, 1, true);
    add_neighbor(&mut drone, 5, true);
    drone.handle_command(DroneCommand::SetPacketDropRate(0));
    let p = packet(PacketType::MsgFragment(fragment()), 1, vec![1, drone.id(), 5], 123);
    drone.forward_packet(p, false);
    let net = settle(&mut drone);
    let got = net.at(5);
    assert_eq!(got.len(), 1);
    match &got[0].pack_type {
        PacketType::MsgFragment(fragment) => {
            assert_eq!(fragment.fragment_index, 0);
            assert_eq!(fragment.total_n_fragments, 1);
            assert_eq!(fragment.length, FRAGMENT_DSIZE as u8);
            assert_eq!(fragment.data[0], 0);
        }
        other => panic!("Unexpected packet: {:?}", other),
    }
}

#[test]
fn test_forward_fragment_with_optimized_routing_when_drone_is_destination() {
    let mut drone = setup_drone();
    add_neighbor(&mut drone, 1, true);
    add_neighbor(&mut drone, 3, true);
    drone.set_optimized_routing(true);
    let p = packet(PacketType::MsgFragment(fragment()), 1, vec![1, drone.id(), 3, 6, 7, drone.id()], 123);
    drone.forward_packet(p, false);
    let net = settle(&mut drone);
    let got = net.at(1);
    assert_eq!(got.len(), 1);
    let nack = nack_of(&got[0]);
    assert_eq!(nack.fragment_index, 0);
    assert_eq!(nack.nack_type, NackType::DestinationIsDrone);
    assert_eq!(got[0].session_id, 123);
}

#[test]
fn test_forward_fragment_when_neighbor_channel_closed() {
    let mut drone = setup_drone();
    add_neighbor(&mut drone, 1, true);
    add_neighbor(&mut drone, 5, false);
    drone.handle_command(DroneCommand::SetPacketDropRate(0));
    let p = packet(PacketType::MsgFragment(fragment()), 1, vec![1, drone.id(), 5], 123);
    drone.forward_packet(p, false);
    let net = settle(&mut drone);
    let got = net.at(1);
    assert_eq!(got.len(), 1);
    let nack = nack_of(&got[0]);
    assert_eq!(nack.fragment_index, 0);
    assert_eq!(nack.nack_type, NackType::ErrorInRouting(5));
    assert_eq!(got[0].session_id, 123);
    assert!(!drone.is_neighbor(5));
}

#[test]
fn test_forward_fragment_when_neighbor_is_removed_after_first_check() {
    let mut drone = setup_drone();
    add_neighbor(&mut drone, 1, true);
    drone.handle_command(DroneCommand::SetPacketDropRate(0));
    let fragment = fragment();
    let p = packet(PacketType::MsgFragment(fragment), 2, vec![1, drone.id(), 5], 123);
    let optimized = drone.optimized_routing();
    drone.handle_fragment(p, fragment, 5, optimized, 50);
    let net = settle(&mut drone);
    let got = net.at(1);
    assert_eq!(got.len(), 1);
    let nack = nack_of(&got[0]);
    assert_eq!(nack.fragment_index, 0);
    assert_eq!(nack.nack_type, NackType::ErrorInRouting(5));
    assert_eq!(got[0].session_id, 123);
}

#[test]
fn test_crash_command() {
    let mut drone = setup_drone();
    assert!(drone.is_running());
    drone.handle_command(DroneCommand::Crash);
    assert!(!drone.is_running());
}

#[test]
fn test_add_sender_command() {
    let mut drone = setup_drone();
    drone.handle_command(DroneCommand::AddSender(UNKNOWN_NODE, Link { open: true }));
    assert!(drone.is_neighbor(UNKNOWN_NODE));
    assert_eq!(drone.sender(UNKNOWN_NODE), Some(&Link { open: true }));
    let sample = packet(PacketType::Ack(Ack { fragment_index: 0 }), 1, vec![drone.id(), UNKNOWN_NODE], 0);
    drone.forward_other_packet(sample);
    let net = settle(&mut drone);
    let got = net.at(UNKNOWN_NODE);
    assert_eq!(got.len(), 1);
    assert_eq!(got[0].pack_type, PacketType::Ack(Ack { fragment_index: 0 }));
    assert_eq!(got[0].routing_header.hops, vec![drone.id(), UNKNOWN_NODE]);
}

#[test]
fn test_remove_sender_command() {
    let mut drone = setup_drone();
    add_neighbor(&mut drone, UNKNOWN_NODE, true);
    drone.handle_command(DroneCommand::RemoveSender(UNKNOWN_NODE));
    assert!(!drone.is_neighbor(UNKNOWN_NODE));
}

#[test]
fn test_set_packet_drop_rate_command() {
    let mut drone = setup_drone();
    drone.handle_command(DroneCommand::SetPacketDropRate(50));
    assert_eq!(drone.pdr(), 50);
    drone.handle_command(DroneCommand::SetPacketDropRate(75));
    assert_eq!(drone.pdr(), 75);
    drone.handle_command(DroneCommand::SetPacketDropRate(0));
    assert_eq!(drone.pdr(), 0);
    drone.handle_command(DroneCommand::SetPacketDropRate(100));
    assert_eq!(drone.pdr(), 100);
}

#[test]
fn handle_flood_test_flood_response_to_sc_if_neighbor_absent() {
    let mut drone = setup_drone();
    let request = FloodRequest {
        flood_id: 123,
        initiator_id: 1,
        path_trace: vec![(1, NodeType::Client), (drone.id(), NodeType::Drone)],
    };
    drone.send_flood_response(&request, 42, UNKNOWN_NODE);
    let net = settle(&mut drone);
    match &net.events[0] {
        DroneEvent::ControllerShortcut(p) => {
            assert_eq!(p.session_id, 42);
            match &p.pack_type {
                PacketType::FloodResponse(response) => {
                    assert_eq!(response.flood_id, 123);
                    assert_eq!(
                        response.path_trace,
                        vec![(1, NodeType::Client), (drone.id(), NodeType::Drone)]
                    );
                }
                other => panic!("Unexpected event: {:?}", other),
            }
        }
        event => panic!("Unexpected event: {:?}", event),
    }
}

#[test]
fn handle_flood_test_flood_response_to_sc_if_neighbor_channel_closed() {
    let mut drone = setup_drone();
    add_neighbor(&mut drone, UNKNOWN_NODE, false);
    let request = FloodRequest {
        flood_id: 123,
        initiator_id: 1,
        path_trace: vec![(1, NodeType::Client), (drone.id(), NodeType::Drone)],
    };
    drone.send_flood_response(&request, 42, UNKNOWN_NODE);
    let net = settle(&mut drone);
    match &net.events[0] {
        DroneEvent::ControllerShortcut(p) => {
            assert_eq!(p.session_id, 42);
            match &p.pack_type {
                PacketType::FloodResponse(response) => {
                    assert_eq!(response.flood_id, 123);
                    assert_eq!(
                        response.path_trace,
                        vec![(1, NodeType::Client), (drone.id(), NodeType::Drone)]
                    );
                }
                other => panic!("Unexpected event: {:?}", other),
            }
        }
        event => panic!("Unexpected event: {:?}", event),
    }
    assert!(!drone.is_neighbor(UNKNOWN_NODE));
}

#[test]
fn handle_flood_test_no_flood_request_to_unknown_neighbor() {
    let mut drone = setup_drone();
    add_neighbor(&mut drone, 1, true);
    let request = FloodRequest {
        flood_id: 123,
        initiator_id: 1,
        path_trace: vec![(1, NodeType::Server), (drone.id(), NodeType::Drone)],
    };
    drone.spread_flood_request(&request, 42, UNKNOWN_NODE);
    let net = settle(&mut drone);
    // The request goes to neighbor 1 and is reported as sent; nothing goes
    // through the controller.
    assert_eq!(net.at(1).len(), 1);
    assert_eq!(net.events.len(), 1);
    assert!(matches!(net.events[0], DroneEvent::PacketSent(_)), "No event should be sent to the SC");
    assert!(!drone.is_neighbor(UNKNOWN_NODE), "Unknown node should not be added");
}

#[test]
fn handle_flood_test_flood_request_if_neighbor_channel_closed() {
    let mut drone = setup_drone();
    add_neighbor(&mut drone, UNKNOWN_NODE, false);
    let request = FloodRequest {
        flood_id: 123,
        initiator_id: 1,
        path_trace: vec![(1, NodeType::Client), (drone.id(), NodeType::Drone)],
    };
    let p = packet(PacketType::FloodRequest(request), 0, vec![], 42);
    drone.handle_flood_request(p);
    let net = settle(&mut drone);
    assert!(net.events.is_empty(), "No event should be sent to the SC");
    assert!(!drone.is_neighbor(UNKNOWN_NODE), "Neighbor with closed channel should be removed");
}

#[test]
fn handle_flood_test_flood_request_to_all_neighbors() {
    let mut drone = setup_drone();
    add_neighbor(&mut drone, 1, true);
    add_neighbor(&mut drone, 2, true);
    let request = flood_request(vec![(1, NodeType::Drone)]);
    let p = packet(PacketType::FloodRequest(request), 0, vec![], 42);
    drone.handle_flood_request(p);
    let net = settle(&mut drone);
    assert!(net.at(1).is_empty());
    let got = net.at(2);
    assert_eq!(got.len(), 1);
    match &got[0].pack_type {
        PacketType::FloodRequest(request) => {
            assert_eq!(request.flood_id, 123);
            assert!(request.path_trace.contains(&(drone.id(), NodeType::Drone)));
        }
        other => panic!("Unexpected packet: {:?}", other),
    }
}

#[test]
fn sends_flood_response_if_has_only_sender_as_a_neighbor() {
    let mut drone = setup_drone();
    add_neighbor(&mut drone, 1, true);
    let p = packet(PacketType::FloodRequest(flood_request(vec![(1, NodeType::Client)])), 0, vec![], 4);
    drone.handle_flood_request(p);
    let net = settle(&mut drone);
    let got = net.at(1);
    assert_eq!(got.len(), 1);
    let expected = vec![(1, NodeType::Client), (drone.id(), NodeType::Drone)];
    match &got[0].pack_type {
        PacketType::FloodResponse(response) => {
            assert_eq!(response.flood_id, 123);
            assert_eq!(response.path_trace, expected);
        }
        other => panic!("Unexpected packet: {:?}", other),
    }
    match &net.events[0] {
        DroneEvent::PacketSent(p) => match &p.pack_type {
            PacketType::FloodResponse(response) => {
                assert_eq!(response.flood_id, 123);
                assert_eq!(response.path_trace, expected);
            }
            other => panic!("Unexpected event: {:?}", other),
        },
        event => panic!("Unexpected event: {:?}", event),
    }
}

#[test]
fn flood_request_already_received() {
    let mut drone = setup_drone();
    add_neighbor(&mut drone, 1, true);
    add_neighbor(&mut drone, 2, true);
    drone.remember_flood((123, 1));
    let p = packet(PacketType::FloodRequest(flood_request(vec![(1, NodeType::Client)])), 0, vec![], 4);
    drone.handle_flood_request(p);
    let net = settle(&mut drone);
    let got = net.at(1);
    assert_eq!(got.len(), 1);
    let expected = vec![(1, NodeType::Client), (drone.id(), NodeType::Drone)];
    match &got[0].pack_type {
        PacketType::FloodResponse(response) => {
            assert_eq!(response.flood_id, 123);
            assert_eq!(response.path_trace, expected);
        }
        other => panic!("Unexpected packet type: {:?}", other),
    }
    match &net.events[0] {
        DroneEvent::PacketSent(p) => match &p.pack_type {
            PacketType::FloodResponse(response) => {
                assert_eq!(response.flood_id, 123);
                assert_eq!(response.path_trace, expected);
            }
            other => panic!("Unexpected event: {:?}", other),
        },
        event => panic!("Unexpected event: {:?}", event),
    }
    assert!(net.at(2).is_empty());
}

#[test]
fn flood_request_with_empty_path_trace() {
    let mut drone = setup_drone();
    add_neighbor(&mut drone, 1, true);
    let p = packet(PacketType::FloodRequest(flood_request(vec![])), 0, vec![], 4);
    drone.handle_flood_request(p);
    let net = settle(&mut drone);
    let got = net.at(1);
    assert_eq!(got.len(), 1);
    match &got[0].pack_type {
        PacketType::FloodResponse(response) => {
            assert_eq!(response.flood_id, 123);
            assert_eq!(response.path_trace, vec![(drone.id(), NodeType::Drone)]);
        }
        other => panic!("Unexpected packet: {:?}", other),
    }
}

#[test]
fn handle_flood_request_with_invalid_packet_type() {
    let mut drone = setup_drone();
    add_neighbor(&mut drone, 1, true);
    let p = packet(PacketType::MsgFragment(fragment()), 0, vec![], 4);
    drone.handle_flood_request(p);
    assert!(drone.is_running(), "Drone state should not be modified when processing an invalid packet type");
    assert!(!drone.has_seen_flood(0, 0), "Drone state should not be modified when processing an invalid packet type");
    let net = settle(&mut drone);
    assert!(net.events.is_empty(), "No events should be sent to the controller for an invalid packet type");
    assert!(net.received.is_empty(), "No packets should be sent to neighbors for an invalid packet type");
}

#[test]
fn flood_request_then_response_next_hop_not_a_neighbor() {
    let mut drone = setup_drone();
    add_neighbor(&mut drone, 1, true);
    drone.remember_flood((123, 1));
    let trace = vec![(1, NodeType::Client), (UNKNOWN_NODE, NodeType::Drone)];
    let p = packet(PacketType::FloodRequest(flood_request(trace)), 0, vec![], 4);
    drone.handle_flood_request(p);
    let net = settle(&mut drone);
    match &net.events[0] {
        DroneEvent::ControllerShortcut(p) => match &p.pack_type {
            PacketType::FloodResponse(response) => {
                assert_eq!(response.flood_id, 123);
                assert_eq!(
                    response.path_trace,
                    vec![(1, NodeType::Client), (UNKNOWN_NODE, NodeType::Drone), (drone.id(), NodeType::Drone)]
                );
            }
            other => panic!("Unexpected event: {:?}", other),
        },
        event => panic!("Unexpected event: {:?}", event),
    }
}

#[test]
fn test_hunt_ghost_on_hunt_mode_active() {
    let mut drone = setup_drone();
    drone.set_hunt_mode(true);
    let result = drone.hunt_ghost(1);
    assert_eq!(result, Ok(()));
    let net = settle(&mut drone);
    match &net.events[0] {
        DroneEvent::PacketSent(p) => match &p.pack_type {
            PacketType::MsgFragment(fragment) => {
                assert_eq!(fragment.fragment_index, 0);
                assert_eq!(fragment.total_n_fragments, 0);
                assert_eq!(fragment.length, PACKET_CONST);
                assert_eq!(fragment.data[0], drone.id());
                assert_eq!(fragment.data[1], 1);
            }
            other => panic!("Unexpected packet: {:?}", other),
        },
        event => panic!("Unexpected event: {:?}", event),
    }
}

#[test]
fn test_hunt_ghost_on_hunt_mode_inactive() {
    let mut drone = setup_drone();
    let result = drone.hunt_ghost(1);
    assert_eq!(result, Err("Drone is not in hunt mode".to_string()));
    let net = settle(&mut drone);
    assert!(net.events.is_empty());
}

#[test]
fn test_optimize_route() {
    let mut drone = setup_drone();
    add_neighbor(&mut drone, 2, true);
    add_neighbor(&mut drone, 3, true);
    let path: Vec<NodeId> = vec![];
    assert_eq!(drone.optimize_route(&path), Vec::<NodeId>::new());
    let path: Vec<NodeId> = vec![drone.id()];
    assert_eq!(drone.optimize_route(&path), vec![drone.id()]);
    let path: Vec<NodeId> = vec![drone.id(), 1, 2, 11];
    assert_eq!(drone.optimize_route(&path), vec![drone.id(), 2, 11]);
    let path: Vec<NodeId> = vec![drone.id(), 1, 4, 5, 6, 3, 11];
    assert_eq!(drone.optimize_route(&path), vec![drone.id(), 3, 11]);
    let path: Vec<NodeId> = vec![drone.id(), 2, 4, 5, 6, 11];
    assert_eq!(drone.optimize_route(&path), vec![drone.id(), 2, 4, 5, 6, 11]);
}

#[test]
fn test_optimize_route_toggle() {
    let mut drone = setup_drone();
    assert!(!drone.optimized_routing());
    drone.set_optimized_routing(true);
    assert!(drone.optimized_routing());
    drone.set_optimized_routing(false);
    assert!(!drone.optimized_routing());
}

#[test]
fn test_nack_sent_successfully() {
    let mut drone = setup_drone();
    add_neighbor(&mut drone, 2, true);
    add_neighbor(&mut drone, 5, true);
    let p = packet(PacketType::MsgFragment(fragment()), 2, vec![5, RB_DRONE_ID, 2, 1, 11], 123);
    let nack = Nack { fragment_index: 0, nack_type: NackType::Dropped };
    drone.send_nack(&p, nack, false);
    let net = settle(&mut drone);
    let got = net.at(5);
    assert_eq!(got.len(), 1);
    let nack = nack_of(&got[0]);
    assert_eq!(nack.fragment_index, 0);
    assert_eq!(nack.nack_type, NackType::Dropped);
}

#[test]
fn test_sending_nack_for_packet_with_hop_index_out_of_range() {
    let mut drone = setup_drone();
    add_neighbor(&mut drone, 2, true);
    add_neighbor(&mut drone, 5, true);
    let p = packet(PacketType::MsgFragment(fragment()), 15, vec![5, RB_DRONE_ID, 2, 1, 11], 123);
    let nack = Nack { fragment_index: 0, nack_type: NackType::Dropped };
    drone.send_nack(&p, nack, false);
    let net = settle(&mut drone);
    assert!(net.at(5).is_empty());
}

#[test]
fn test_sending_nack_for_packet_with_only_one_hop() {
    let mut drone = setup_drone();
    add_neighbor(&mut drone, 2, true);
    let p = packet(PacketType::MsgFragment(fragment()), 2, vec![RB_DRONE_ID], 123);
    let nack = Nack { fragment_index: 0, nack_type: NackType::DestinationIsDrone };
    drone.send_nack(&p, nack, false);
    let net = settle(&mut drone);
    assert!(net.at(2).is_empty());
}

#[test]
fn test_sending_nack_to_sc_if_neighbor_absent() {
    let mut drone = setup_drone();
    let p = packet(PacketType::MsgFragment(fragment()), 2, vec![5, RB_DRONE_ID, 2, 1, 11], 123);
    let nack = Nack { fragment_index: 0, nack_type: NackType::Dropped };
    drone.send_nack(&p, nack, false);
    let net = settle(&mut drone);
    match &net.events[0] {
        DroneEvent::ControllerShortcut(p) => {
            assert_eq!(p.session_id, 123);
            let nack = nack_of(p);
            assert_eq!(nack.fragment_index, 0);
            assert_eq!(nack.nack_type, NackType::Dropped);
        }
        event => panic!("Unexpected event: {:?}", event),
    }
}

#[test]
fn test_sending_nack_to_sc_if_channel_closed() {
    let mut drone = setup_drone();
    add_neighbor(&mut drone, 2, true);
    add_neighbor(&mut drone, 5, false);
    let p = packet(PacketType::MsgFragment(fragment()), 2, vec![5, RB_DRONE_ID, 2, 1, 11], 123);
    let nack = Nack { fragment_index: 0, nack_type: NackType::Dropped };
    drone.send_nack(&p, nack, false);
    let net = settle(&mut drone);
    match &net.events[0] {
        DroneEvent::ControllerShortcut(p) => {
            assert_eq!(p.session_id, 123);
            let nack = nack_of(p);
            assert_eq!(nack.fragment_index, 0);
            assert_eq!(nack.nack_type, NackType::Dropped);
        }
        event => panic!("Unexpected event: {:?}", event),
    }
    assert!(!drone.is_neighbor(5));
}

#[test]
fn test_sending_nack_with_optimized_routing() {
    let mut drone = setup_drone();
    add_neighbor(&mut drone, 2, true);
    add_neighbor(&mut drone, 5, true);
    add_neighbor(&mut drone, 3, true);
    drone.set_optimized_routing(true);
    let p = packet(PacketType::MsgFragment(fragment()), 5, vec![5, 12, 13, 3, RB_DRONE_ID, 2], 123);
    let nack = Nack { fragment_index: 0, nack_type: NackType::Dropped };
    drone.send_nack(&p, nack, true);
    let net = settle(&mut drone);
    let got = net.at(5);
    assert_eq!(got.len(), 1);
    let nack = nack_of(&got[0]);
    assert_eq!(nack.fragment_index, 0);
    assert_eq!(nack.nack_type, NackType::Dropped);
    assert_eq!(got[0].routing_header.hops, vec![RB_DRONE_ID, 5]);
}

/// The drone of the second group of tests: pdr 10 and, as set up there, not
/// running.
fn setup_stopped_drone() -> RustBustersDrone<Link> {
    let mut drone = setup_drone();
    drone.handle_command(DroneCommand::Crash);
    drone
}

#[test]
fn test_send_nack_success() {
    let mut drone = setup_stopped_drone();
    add_neighbor(&mut drone, 2, true);
    add_neighbor(&mut drone, 5, true);
    let p = packet(PacketType::MsgFragment(fragment()), 2, vec![5, RB_DRONE_ID, 2, 1, 11], 123);
    let nack = Nack { fragment_index: 0, nack_type: NackType::Dropped };
    drone.send_nack(&p, nack, false);
    let net = settle(&mut drone);
    let got = net.at(5);
    assert_eq!(got.len(), 1);
    let nack = nack_of(&got[0]);
    assert_eq!(nack.fragment_index, 0);
    assert_eq!(nack.nack_type, NackType::Dropped);
}

#[test]
fn test_path_optimization() {
    let mut drone = setup_stopped_drone();
    add_neighbor(&mut drone, 2, true);
    add_neighbor(&mut drone, 3, true);
    let path: Vec<NodeId> = vec![drone.id(), 1, 2, 11];
    assert_eq!(drone.optimize_route(&path), vec![drone.id(), 2, 11]);
    let path: Vec<NodeId> = vec![drone.id(), 1, 4, 5, 6, 3, 11];
    assert_eq!(drone.optimize_route(&path), vec![drone.id(), 3, 11]);
    let path: Vec<NodeId> = vec![drone.id(), 2, 4, 5, 6, 11];
    assert_eq!(drone.optimize_route(&path), vec![drone.id(), 2, 4, 5, 6, 11]);
}

#[test]
fn test_hunt_mode() {
    let mut drone = setup_stopped_drone();
    drone.set_hunt_mode(true);
    match drone.hunt_ghost(2) {
        Ok(()) => {}
        Err(e) => panic!("Error: {e}"),
    }
    let net = settle(&mut drone);
    match &net.events[0] {
        DroneEvent::PacketSent(p) => match &p.pack_type {
            PacketType::MsgFragment(fragment) => {
                assert_eq!(fragment.fragment_index, 0);
                assert_eq!(fragment.total_n_fragments, 0);
                assert_eq!(fragment.length, 169);
                assert_eq!(fragment.data[0], drone.id());
                assert_eq!(fragment.data[1], 2);
            }
            other => panic!("Pacchetto non atteso: {:?}", other),
        },
        event => panic!("Evento non atteso: {event:?}"),
    }
}

#[test]
fn test_forward_other_packets() {
    let mut drone = setup_stopped_drone();
    add_neighbor(&mut drone, 200, true);
    add_neighbor(&mut drone, 3, true);
    let hops = vec![100, 99, drone.id(), 3, 5, 200, 1, 11];
    let p = packet(PacketType::Ack(Ack { fragment_index: 0 }), 3, hops.clone(), 123);

    drone.set_optimized_routing(false);
    drone.forward_other_packet(p.clone());
    let net = settle(&mut drone);
    let got = net.at(3);
    assert_eq!(got.len(), 1);
    assert_eq!(got[0].pack_type, PacketType::Ack(Ack { fragment_index: 0 }));
    assert_eq!(got[0].routing_header.hops, hops);

    drone.set_optimized_routing(true);
    drone.forward_other_packet(p);
    let net = settle(&mut drone);
    let got = net.at(200);
    assert_eq!(got.len(), 1);
    assert_eq!(got[0].pack_type, PacketType::Ack(Ack { fragment_index: 0 }));
    assert_eq!(got[0].routing_header.hops, vec![100, 99, drone.id(), 200, 1, 11]);
}

#[test]
fn test_handle_command() {
    let mut drone = setup_stopped_drone();
    drone.handle_command(DroneCommand::Crash);
    assert!(!drone.is_running());
    drone.handle_command(DroneCommand::AddSender(2, Link { open: true }));
    assert!(drone.is_neighbor(2));
    drone.handle_command(DroneCommand::RemoveSender(2));
    assert!(!drone.is_neighbor(2));
    drone.handle_command(DroneCommand::SetPacketDropRate(0));
    drone.handle_command(DroneCommand::SetPacketDropRate(50));
    assert_eq!(drone.pdr(), 50);
}

#[test]
fn test_handle_flood_request() {
    // A stopped drone ignores flood requests, so this one runs.
    let mut drone = setup_drone();
    add_neighbor(&mut drone, 2, true);
    add_neighbor(&mut drone, 3, true);
    let first = flood_request(vec![(1, NodeType::Client), (2, NodeType::Drone)]);
    drone.handle_flood_request(packet(PacketType::FloodRequest(first), 0, vec![], 123));
    let net = settle(&mut drone);
    let got = net.at(3);
    assert_eq!(got.len(), 1);
    match &got[0].pack_type {
        PacketType::FloodRequest(request) => {
            assert_eq!(request.flood_id, 123);
            assert_eq!(
                request.path_trace,
                vec![(1, NodeType::Client), (2, NodeType::Drone), (drone.id(), NodeType::Drone)]
            );
        }
        other => panic!("Pacchetto non atteso: {:?}", other),
    }

    let second = flood_request(vec![(1, NodeType::Client), (3, NodeType::Drone)]);
    drone.handle_flood_request(packet(PacketType::FloodRequest(second), 0, vec![], 123));
    let net = settle(&mut drone);
    let got = net.at(3);
    assert_eq!(got.len(), 1);
    match &got[0].pack_type {
        PacketType::FloodResponse(response) => {
            assert_eq!(response.flood_id, 123);
            assert_eq!(
                response.path_trace,
                vec![(1, NodeType::Client), (3, NodeType::Drone), (drone.id(), NodeType::Drone)]
            );
        }
        other => panic!("Pacchetto non atteso: {:?}", other),
    }
}

#[test]
fn mod_test_flood_response_to_sc_if_neighbor_absent() {
    let mut drone = setup_drone();
    let request = FloodRequest {
        flood_id: 123,
        initiator_id: 1,
        path_trace: vec![(1, NodeType::Client), (drone.id(), NodeType::Drone)],
    };
    drone.send_flood_response(&request, 42, UNKNOWN_NODE);
    let net = settle(&mut drone);
    match &net.events[0] {
        DroneEvent::ControllerShortcut(p) => {
            assert_eq!(p.session_id, 42);
            match &p.pack_type {
                PacketType::FloodResponse(response) => {
                    assert_eq!(response.flood_id, 123);
                    assert_eq!(
                        response.path_trace,
                        vec![(1, NodeType::Client), (drone.id(), NodeType::Drone)]
                    );
                }
                other => panic!("Unexpected event: {:?}", other),
            }
        }
        event => panic!("Unexpected event: {event:?}"),
    }
}

#[test]
fn mod_test_flood_response_to_sc_if_neighbor_channel_closed() {
    let mut drone = setup_drone();
    add_neighbor(&mut drone, UNKNOWN_NODE, false);
    let request = FloodRequest {
        flood_id: 123,
        initiator_id: 1,
        path_trace: vec![(1, NodeType::Client), (drone.id(), NodeType::Drone)],
    };
    drone.send_flood_response(&request, 42, UNKNOWN_NODE);
    let net = settle(&mut drone);
    match &net.events[0] {
        DroneEvent::ControllerShortcut(p) => {
            assert_eq!(p.session_id, 42);
            match &p.pack_type {
                PacketType::FloodResponse(response) => {
                    assert_eq!(response.flood_id, 123);
                    assert_eq!(
                        response.path_trace,
                        vec![(1, NodeType::Client), (drone.id(), NodeType::Drone)]
                    );
                }
                other => panic!("Unexpected event: {:?}", other),
            }
        }
        event => panic!("Unexpected event: {event:?}"),
    }
    assert!(!drone.is_neighbor(UNKNOWN_NODE));
}

#[test]
fn mod_test_no_flood_request_to_unknown_neighbor() {
    let mut drone = setup_drone();
    let request = FloodRequest {
        flood_id: 123,
        initiator_id: 1,
        path_trace: vec![(1, NodeType::Server), (drone.id(), NodeType::Drone)],
    };
    drone.spread_flood_request(&request, 42, UNKNOWN_NODE);
    let net = settle(&mut drone);
    // With no neighbor to pass it on to, the drone answers; the unknown
    // sender is reached through the controller.
    assert!(net.received.is_empty());
    assert_eq!(net.events.len(), 1);
    match &net.events[0] {
        DroneEvent::ControllerShortcut(p) => {
            assert!(matches!(p.pack_type, PacketType::FloodResponse(_)), "No event should be sent to the SC")
        }
        event => panic!("Unexpected event: {:?}", event),
    }
    assert!(!drone.is_neighbor(UNKNOWN_NODE), "Unknown node should not be added");
}

#[test]
fn mod_test_flood_request_if_neighbor_channel_closed() {
    let mut drone = setup_drone();
    add_neighbor(&mut drone, UNKNOWN_NODE, false);
    let request = FloodRequest {
        flood_id: 123,
        initiator_id: 1,
        path_trace: vec![(1, NodeType::Client), (drone.id(), NodeType::Drone)],
    };
    drone.spread_flood_request(&request, 42, 1);
    let net = settle(&mut drone);
    assert!(net.events.is_empty(), "No event should be sent to the SC");
    assert!(!drone.is_neighbor(UNKNOWN_NODE), "Neighbor with closed channel should be removed");
}

#[test]
fn mod_test_flood_request_to_all_neighbors() {
    let mut drone = setup_drone();
    add_neighbor(&mut drone, 1, true);
    add_neighbor(&mut drone, 2, true);
    let request = flood_request(vec![(1, NodeType::Drone), (drone.id(), NodeType::Drone)]);
    drone.spread_flood_request(&request, 42, 1);
    let net = settle(&mut drone);
    assert!(net.at(1).is_empty());
    let got = net.at(2);
    assert_eq!(got.len(), 1);
    match &got[0].pack_type {
        PacketType::FloodRequest(request) => {
            assert_eq!(request.flood_id, 123);
            assert!(request.path_trace.contains(&(drone.id(), NodeType::Drone)));
        }
        other => panic!("Unexpected packet: {:?}", other),
    }
}

#[test]
fn test_single_neighbor_sends_flood_response() {
    let mut drone = setup_drone();
    add_neighbor(&mut drone, 2, true);
    let request = flood_request(vec![(1, NodeType::Drone), (2, NodeType::Drone)]);
    drone.handle_flood_request(packet(PacketType::FloodRequest(request), 0, vec![2], 123));
    let net = settle(&mut drone);
    let got = net.at(2);
    assert_eq!(got.len(), 1);
    match &got[0].pack_type {
        PacketType::FloodResponse(response) => assert_eq!(response.flood_id, 123),
        other => panic!("Unexpected packet: {:?}", other),
    }
}
