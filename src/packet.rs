//! Packets, controller events and commands, and their mathematical models.
use vstd::prelude::*;

verus! {

/// Identifier of a node of the network (drone, client or server).
pub type NodeId = u8;

/// Size of the payload carried by a message fragment.
pub const FRAGMENT_DSIZE: usize = 128;

#[derive(Clone, Copy, Debug, PartialEq, Eq, Structural)]
pub enum NodeType {
    Client,
    Drone,
    Server,
}

#[derive(Clone, Copy, Debug, PartialEq, Eq, Structural)]
pub enum NackType {
    ErrorInRouting(NodeId),
    DestinationIsDrone,
    Dropped,
    UnexpectedRecipient(NodeId),
}

#[derive(Clone, Copy, Debug, PartialEq, Eq, Structural)]
pub struct Nack {
    pub fragment_index: u64,
    pub nack_type: NackType,
}

#[derive(Clone, Copy, Debug, PartialEq, Eq, Structural)]
pub struct Ack {
    pub fragment_index: u64,
}

/// A piece of user data: the only kind of packet that may be dropped.
#[derive(Clone, Copy, Debug, PartialEq, Eq)]
pub struct Fragment {
    pub fragment_index: u64,
    pub total_n_fragments: u64,
    pub length: u8,
    pub data: [u8; FRAGMENT_DSIZE],
}

#[derive(Clone, Debug, PartialEq, Eq)]
pub struct FloodRequest {
    pub flood_id: u64,
    pub initiator_id: NodeId,
    pub path_trace: Vec<(NodeId, NodeType)>,
}

#[derive(Clone, Debug, PartialEq, Eq)]
pub struct FloodResponse {
    pub flood_id: u64,
    pub path_trace: Vec<(NodeId, NodeType)>,
}

#[derive(Clone, Debug, PartialEq, Eq)]
pub enum PacketType {
    MsgFragment(Fragment),
    Ack(Ack),
    Nack(Nack),
    FloodRequest(FloodRequest),
    FloodResponse(FloodResponse),
}

/// The route of a packet: the packet resides at `hops[hop_index]`.
#[derive(Clone, Debug, PartialEq, Eq)]
pub struct SourceRoutingHeader {
    pub hop_index: usize,
    pub hops: Vec<NodeId>,
}

#[derive(Clone, Debug, PartialEq, Eq)]
pub struct Packet {
    pub pack_type: PacketType,
    pub routing_header: SourceRoutingHeader,
    pub session_id: u64,
}

/// What a drone reports to the simulation controller.
#[derive(Clone, Debug, PartialEq, Eq)]
pub enum DroneEvent {
    PacketSent(Packet),
    PacketDropped(Packet),
    ControllerShortcut(Packet),
}

/// What the simulation controller asks of a drone; `S` is the type of the
/// outbound link to a neighbor.
pub enum DroneCommand<S> {
    AddSender(NodeId, S),
    RemoveSender(NodeId),
    Crash,
    /// The new packet drop rate, in percent.
    SetPacketDropRate(u8),
}

/// One thing the drone wants done by whoever runs it.
#[derive(Clone, Debug, PartialEq, Eq)]
pub enum Action {
    /// Put `packet` on the link to neighbor `to`. When the link takes it and
    /// `report` is set, `PacketSent(packet)` goes to the controller; when the
    /// link is closed, the failure goes back to the drone.
    Send { to: NodeId, packet: Packet, report: bool },
    /// Hand an event to the controller.
    Emit(DroneEvent),
}

/// The content of a packet, with its sequences as `Seq`.
pub enum PacketKind {
    Fragment(Fragment),
    Ack(Ack),
    Nack(Nack),
    FloodRequest { flood_id: u64, initiator_id: NodeId, path_trace: Seq<(NodeId, NodeType)> },
    FloodResponse { flood_id: u64, path_trace: Seq<(NodeId, NodeType)> },
}

pub struct PacketModel {
    pub kind: PacketKind,
    pub hop_index: int,
    pub hops: Seq<NodeId>,
    pub session_id: u64,
}

pub enum EventModel {
    Sent(PacketModel),
    Dropped(PacketModel),
    Shortcut(PacketModel),
}

pub enum ActionModel {
    Send { to: NodeId, packet: PacketModel, report: bool },
    Emit(EventModel),
}

impl View for PacketType {
    type V = PacketKind;

    open spec fn view(&self) -> PacketKind {
        match self {
            PacketType::MsgFragment(f) => PacketKind::Fragment(*f),
            PacketType::Ack(a) => PacketKind::Ack(*a),
            PacketType::Nack(n) => PacketKind::Nack(*n),
            PacketType::FloodRequest(r) => PacketKind::FloodRequest {
                flood_id: r.flood_id,
                initiator_id: r.initiator_id,
                path_trace: r.path_trace@,
            },
            PacketType::FloodResponse(r) => PacketKind::FloodResponse {
                flood_id: r.flood_id,
                path_trace: r.path_trace@,
            },
        }
    }
}

impl View for Packet {
    type V = PacketModel;

    open spec fn view(&self) -> PacketModel {
        PacketModel {
            kind: self.pack_type@,
            hop_index: self.routing_header.hop_index as int,
            hops: self.routing_header.hops@,
            session_id: self.session_id,
        }
    }
}

impl View for DroneEvent {
    type V = EventModel;

    open spec fn view(&self) -> EventModel {
        match self {
            DroneEvent::PacketSent(p) => EventModel::Sent(p@),
            DroneEvent::PacketDropped(p) => EventModel::Dropped(p@),
            DroneEvent::ControllerShortcut(p) => EventModel::Shortcut(p@),
        }
    }
}

impl View for Action {
    type V = ActionModel;

    open spec fn view(&self) -> ActionModel {
        match self {
            Action::Send { to, packet, report } => ActionModel::Send {
                to: *to,
                packet: packet@,
                report: *report,
            },
            Action::Emit(e) => ActionModel::Emit(e@),
        }
    }
}

impl PacketModel {
    /// The cursor points at a hop of the route.
    pub open spec fn routable(self) -> bool {
        0 <= self.hop_index < self.hops.len()
    }
}

impl ActionModel {
    /// The packet that a send or an event carries.
    pub open spec fn packet(self) -> PacketModel {
        match self {
            ActionModel::Send { packet, .. } => packet,
            ActionModel::Emit(EventModel::Sent(p)) => p,
            ActionModel::Emit(EventModel::Dropped(p)) => p,
            ActionModel::Emit(EventModel::Shortcut(p)) => p,
        }
    }
}

/// Every packet that `actions` put on a link or hand to the controller has
/// its cursor on its route, but for a hunt record, whose route is empty.
pub open spec fn routes_valid(actions: Seq<ActionModel>) -> bool {
    forall|i: int|
        0 <= i < actions.len() ==> (#[trigger] actions[i]).packet().routable() || (actions[i] is Emit
            && actions[i].packet().hops.len() == 0)
}

pub proof fn lemma_routes_valid_concat(a: Seq<ActionModel>, b: Seq<ActionModel>)
    requires
        routes_valid(a),
        routes_valid(b),
    ensures
        routes_valid(a + b),
{
    assert forall|i: int| 0 <= i < (a + b).len() implies (#[trigger] (a + b)[i]).packet().routable()
        || ((a + b)[i] is Emit && (a + b)[i].packet().hops.len() == 0) by {
        if i >= a.len() {
            assert((a + b)[i] == b[i - a.len()]);
        }
    }
}

/// No action of `actions` puts a flood request on a link.
pub open spec fn sends_no_flood_request(actions: Seq<ActionModel>) -> bool {
    forall|i: int|
        0 <= i < actions.len() && (#[trigger] actions[i]) is Send ==> !(actions[i].packet().kind is FloodRequest)
}

pub proof fn lemma_sends_no_flood_request_concat(a: Seq<ActionModel>, b: Seq<ActionModel>)
    requires
        sends_no_flood_request(a),
        sends_no_flood_request(b),
    ensures
        sends_no_flood_request(a + b),
{
    assert forall|i: int| 0 <= i < (a + b).len() && (#[trigger] (a + b)[i]) is Send implies !((a
        + b)[i].packet().kind is FloodRequest) by {
        if i >= a.len() {
            assert((a + b)[i] == b[i - a.len()]);
        }
    }
}

/// A copy of a vector of plain values.
pub fn copy_vec<T: Copy>(v: &Vec<T>) -> (r: Vec<T>)
    ensures
        r@ == v@,
{
    let mut r: Vec<T> = Vec::new();
    let mut i: usize = 0;
    while i < v.len()
        invariant
            i <= v.len(),
            r@ == v@.subrange(0, i as int),
        decreases v.len() - i,
    {
        r.push(v[i]);
        i += 1;
    }
    r
}

impl PacketType {
    pub fn duplicate(&self) -> (r: PacketType)
        ensures
            r@ == self@,
    {
        match self {
            PacketType::MsgFragment(f) => PacketType::MsgFragment(*f),
            PacketType::Ack(a) => PacketType::Ack(*a),
            PacketType::Nack(n) => PacketType::Nack(*n),
            PacketType::FloodRequest(r) => PacketType::FloodRequest(FloodRequest {
                flood_id: r.flood_id,
                initiator_id: r.initiator_id,
                path_trace: copy_vec(&r.path_trace),
            }),
            PacketType::FloodResponse(r) => PacketType::FloodResponse(FloodResponse {
                flood_id: r.flood_id,
                path_trace: copy_vec(&r.path_trace),
            }),
        }
    }
}

impl Packet {
    /// A copy of the packet, field for field.
    pub fn duplicate(&self) -> (r: Packet)
        ensures
            r@ == self@,
    {
        Packet {
            pack_type: self.pack_type.duplicate(),
            routing_header: SourceRoutingHeader {
                hop_index: self.routing_header.hop_index,
                hops: copy_vec(&self.routing_header.hops),
            },
            session_id: self.session_id,
        }
    }
}

} // verus!
