//! The forwarding engine: validation, cursor advance, drop policy and the
//! dispatch of every packet but flood requests.
use vstd::prelude::*;
use crate::drone::{deliver_actions, lemma_recording_twice, DroneState, RustBustersDrone};
use crate::hunt::hunt_actions;
use crate::packet::{
    copy_vec, lemma_routes_valid_concat, routes_valid, Action, ActionModel, DroneEvent, EventModel,
    Fragment, Nack, NackType, NodeId, Packet, PacketKind, PacketModel, PacketType,
    SourceRoutingHeader,
};
use crate::route::{lemma_optimized_is_tail_replacement, optimized_path};
use crate::send_nack::{lemma_nack_actions_kind, lemma_nack_routes_valid, nack_actions, nack_packet};
use rand::Rng;

verus! {

/// The first index `j >= i` with `hops[j] == id`, or the length of `hops`.
pub open spec fn first_from(hops: Seq<NodeId>, id: NodeId, i: int) -> int
    decreases hops.len() - i,
{
    if i >= hops.len() {
        hops.len() as int
    } else if hops[i] == id {
        i
    } else {
        first_from(hops, id, i + 1)
    }
}

/// The packet resides at drone `id`: its cursor points at `id`.
pub open spec fn at_drone(p: PacketModel, id: NodeId) -> bool {
    0 <= p.hop_index < p.hops.len() && p.hops[p.hop_index] == id
}

/// The packet with its cursor at `h`.
pub open spec fn at_hop(p: PacketModel, h: int) -> PacketModel {
    PacketModel { hop_index: h, ..p }
}

/// Where a packet that reached drone `id` by mistake is taken to have left
/// its route, which fixes the traversed prefix that its Nack goes back
/// along: the hops before the cursor (all of them, where the cursor points
/// past the route), cut at the first place where `id` itself stands on the
/// route, since the route can only have brought the packet to `id` there.
/// The Nack's route is this drone followed by that prefix backwards; where
/// the prefix is empty (`id` heads the route) there is no way back, and, as
/// for any Nack whose route would have fewer than two hops, none is sent.
pub open spec fn misroute_point(p: PacketModel, id: NodeId) -> int {
    let f = first_from(p.hops, id, 0);
    if p.hop_index < f {
        p.hop_index
    } else {
        f
    }
}

/// A misrouted packet as if its route had led to drone `id` and its cursor
/// stood one past it.
pub open spec fn misrouted(p: PacketModel, id: NodeId) -> PacketModel {
    let t = misroute_point(p, id);
    PacketModel { hops: p.hops.subrange(0, t).push(id), hop_index: t + 1, ..p }
}

/// The route of a non-droppable packet (cursor one past this drone) once
/// the part from this drone on has gone through the optimizer, where the
/// drone optimizes routes.
pub open spec fn other_route<S>(st: DroneState<S>, p: PacketModel) -> Seq<NodeId> {
    let k = p.hop_index - 1;
    if st.optimized_routing {
        p.hops.subrange(0, k) + optimized_path(p.hops.subrange(k, p.hops.len() as int), st.neighbors.dom())
    } else {
        p.hops
    }
}

/// What forwarding an Ack, Nack or FloodResponse records.
pub open spec fn other_actions<S>(st: DroneState<S>, p: PacketModel) -> Seq<ActionModel> {
    let q = PacketModel { hops: other_route(st, p), ..p };
    deliver_actions(st, q.hops[q.hop_index], q, true)
}

/// What a fragment at a neighbor-facing cursor records, for the random
/// draw `draw` (in `1..=100`): a drop when `draw <= pdr`, else the send.
pub open spec fn fragment_actions<S>(
    st: DroneState<S>,
    p: PacketModel,
    f: Fragment,
    allow_optimized: bool,
    draw: u8,
) -> Seq<ActionModel> {
    if draw <= st.pdr {
        nack_actions(
            st,
            p,
            Nack { fragment_index: f.fragment_index, nack_type: NackType::Dropped },
            allow_optimized,
        ).push(ActionModel::Emit(EventModel::Dropped(at_hop(p, p.hop_index - 1))))
    } else {
        seq![ActionModel::Send { to: p.hops[p.hop_index], packet: p, report: true }]
    }
}

/// What a packet that did not reach this drone on its route records: an
/// `UnexpectedRecipient` Nack for a fragment, nothing for any other packet.
pub open spec fn misrouted_actions<S>(st: DroneState<S>, p: PacketModel, allow_optimized: bool) -> Seq<
    ActionModel,
> {
    match p.kind {
        PacketKind::Fragment(f) => nack_actions(
            st,
            misrouted(p, st.id),
            Nack { fragment_index: f.fragment_index, nack_type: NackType::UnexpectedRecipient(st.id) },
            allow_optimized,
        ),
        _ => Seq::empty(),
    }
}

/// What forwarding packet `p` records, for the random draw `draw`.
pub open spec fn forward_actions<S>(
    st: DroneState<S>,
    p: PacketModel,
    allow_optimized: bool,
    draw: u8,
) -> Seq<ActionModel> {
    let id = st.id;
    if !at_drone(p, id) {
        misrouted_actions(st, p, allow_optimized)
    } else {
        let q = at_hop(p, p.hop_index + 1);
        if !st.running && p.kind is Fragment {
            nack_actions(
                st,
                q,
                Nack {
                    fragment_index: p.kind->Fragment_0.fragment_index,
                    nack_type: NackType::ErrorInRouting(id),
                },
                allow_optimized,
            )
        } else if p.hops.last() == id {
            match p.kind {
                PacketKind::Fragment(f) => nack_actions(
                    st,
                    q,
                    Nack { fragment_index: f.fragment_index, nack_type: NackType::DestinationIsDrone },
                    allow_optimized,
                ),
                _ => Seq::empty(),
            }
        } else {
            let next = p.hops[q.hop_index];
            match p.kind {
                PacketKind::Fragment(f) => if !st.is_neighbor(next) {
                    nack_actions(
                        st,
                        q,
                        Nack { fragment_index: f.fragment_index, nack_type: NackType::ErrorInRouting(next) },
                        allow_optimized,
                    )
                } else {
                    fragment_actions(st, q, f, allow_optimized, draw)
                },
                PacketKind::FloodRequest { .. } => Seq::empty(),
                PacketKind::Nack(n) => if st.hunt_mode && n.nack_type == NackType::Dropped {
                    hunt_actions(st, p.hops[0]) + other_actions(st, q)
                } else {
                    other_actions(st, q)
                },
                _ => other_actions(st, q),
            }
        }
    }
}

/// What a failed send of `p` to neighbor `to` records: a Nack for a
/// fragment, nothing for a flood request, and for any other packet a request
/// to the controller to deliver it.
pub open spec fn link_failed_actions<S>(
    st: DroneState<S>,
    to: NodeId,
    p: PacketModel,
    allow_optimized: bool,
) -> Seq<ActionModel> {
    match p.kind {
        PacketKind::Fragment(f) => nack_actions(
            st,
            p,
            Nack { fragment_index: f.fragment_index, nack_type: NackType::ErrorInRouting(to) },
            allow_optimized,
        ),
        PacketKind::FloodRequest { .. } => Seq::empty(),
        _ => seq![ActionModel::Emit(EventModel::Shortcut(p))],
    }
}

proof fn lemma_first_from(hops: Seq<NodeId>, id: NodeId, i: int)
    requires
        0 <= i <= hops.len(),
    ensures
        i <= first_from(hops, id, i) <= hops.len(),
        first_from(hops, id, i) < hops.len() ==> hops[first_from(hops, id, i)] == id,
    decreases hops.len() - i,
{
    if i < hops.len() && hops[i] != id {
        lemma_first_from(hops, id, i + 1);
    }
}

proof fn lemma_other_routes_valid<S>(st: DroneState<S>, p: PacketModel)
    requires
        1 <= p.hop_index < p.hops.len(),
    ensures
        routes_valid(other_actions(st, p)),
        other_route(st, p).len() > p.hop_index,
{
    let k = p.hop_index - 1;
    lemma_optimized_is_tail_replacement(p.hops.subrange(k, p.hops.len() as int), st.neighbors.dom());
    let q = PacketModel { hops: other_route(st, p), ..p };
    assert(q.routable());
}

/// Every packet that forwarding emits, on a link or to the controller, has
/// its cursor on its route (a hunt record aside, whose route is empty).
pub proof fn lemma_forward_routes_valid<S>(
    st: DroneState<S>,
    p: PacketModel,
    allow_optimized: bool,
    draw: u8,
)
    ensures
        routes_valid(forward_actions(st, p, allow_optimized, draw)),
{
    let id = st.id;
    if !at_drone(p, id) {
        if let PacketKind::Fragment(f) = p.kind {
            lemma_nack_routes_valid(
                st,
                misrouted(p, id),
                Nack { fragment_index: f.fragment_index, nack_type: NackType::UnexpectedRecipient(id) },
                allow_optimized,
            );
        }
    } else {
        let q = at_hop(p, p.hop_index + 1);
        if !st.running && p.kind is Fragment {
            lemma_nack_routes_valid(
                st,
                q,
                Nack {
                    fragment_index: p.kind->Fragment_0.fragment_index,
                    nack_type: NackType::ErrorInRouting(id),
                },
                allow_optimized,
            );
        } else if p.hops.last() == id {
            if let PacketKind::Fragment(f) = p.kind {
                lemma_nack_routes_valid(
                    st,
                    q,
                    Nack { fragment_index: f.fragment_index, nack_type: NackType::DestinationIsDrone },
                    allow_optimized,
                );
            }
        } else {
            let next = p.hops[q.hop_index];
            match p.kind {
                PacketKind::Fragment(f) => {
                    if !st.is_neighbor(next) {
                        lemma_nack_routes_valid(
                            st,
                            q,
                            Nack { fragment_index: f.fragment_index, nack_type: NackType::ErrorInRouting(next) },
                            allow_optimized,
                        );
                    } else if draw <= st.pdr {
                        let nack = Nack { fragment_index: f.fragment_index, nack_type: NackType::Dropped };
                        lemma_nack_routes_valid(st, q, nack, allow_optimized);
                        let e = seq![ActionModel::Emit(EventModel::Dropped(at_hop(q, q.hop_index - 1)))];
                        assert(routes_valid(e));
                        lemma_routes_valid_concat(nack_actions(st, q, nack, allow_optimized), e);
                    }
                },
                PacketKind::FloodRequest { .. } => {},
                PacketKind::Nack(n) => {
                    lemma_other_routes_valid(st, q);
                    if st.hunt_mode && n.nack_type == NackType::Dropped {
                        let h = hunt_actions(st, p.hops[0]);
                        assert(routes_valid(h));
                        lemma_routes_valid_concat(h, other_actions(st, q));
                    }
                },
                _ => {
                    lemma_other_routes_valid(st, q);
                },
            }
        }
    }
}

/// What forwarding packet `p` puts on a link is a Nack, or `p` itself
/// (never a flood request, and a fragment only while the drone runs).
pub open spec fn forward_send_ok<S>(st: DroneState<S>, p: PacketModel, a: ActionModel) -> bool {
    a is Send ==> (a.packet().kind is Nack || (a.packet().kind == p.kind && !(p.kind is FloodRequest)
        && (p.kind is Fragment ==> st.running)))
}

/// Forwarding puts on links only Nacks and the packet itself; it never
/// passes a flood request on, and a crashed drone passes no fragment on.
pub proof fn lemma_forward_sends<S>(st: DroneState<S>, p: PacketModel, allow_optimized: bool, draw: u8)
    ensures
        forall|i: int|
            0 <= i < forward_actions(st, p, allow_optimized, draw).len() ==> forward_send_ok(
                st,
                p,
                #[trigger] forward_actions(st, p, allow_optimized, draw)[i],
            ),
{
    let id = st.id;
    let a = forward_actions(st, p, allow_optimized, draw);
    if !at_drone(p, id) {
        if let PacketKind::Fragment(f) = p.kind {
            lemma_nack_actions_kind(
                st,
                misrouted(p, id),
                Nack { fragment_index: f.fragment_index, nack_type: NackType::UnexpectedRecipient(id) },
                allow_optimized,
            );
        }
    } else {
        let q = at_hop(p, p.hop_index + 1);
        if !st.running && p.kind is Fragment {
            lemma_nack_actions_kind(
                st,
                q,
                Nack {
                    fragment_index: p.kind->Fragment_0.fragment_index,
                    nack_type: NackType::ErrorInRouting(id),
                },
                allow_optimized,
            );
        } else if p.hops.last() == id {
            if let PacketKind::Fragment(f) = p.kind {
                lemma_nack_actions_kind(
                    st,
                    q,
                    Nack { fragment_index: f.fragment_index, nack_type: NackType::DestinationIsDrone },
                    allow_optimized,
                );
            }
        } else {
            let next = p.hops[q.hop_index];
            match p.kind {
                PacketKind::Fragment(f) => {
                    if !st.is_neighbor(next) {
                        lemma_nack_actions_kind(
                            st,
                            q,
                            Nack { fragment_index: f.fragment_index, nack_type: NackType::ErrorInRouting(next) },
                            allow_optimized,
                        );
                    } else if draw <= st.pdr {
                        let nack = Nack { fragment_index: f.fragment_index, nack_type: NackType::Dropped };
                        lemma_nack_actions_kind(st, q, nack, allow_optimized);
                        let na = nack_actions(st, q, nack, allow_optimized);
                        assert forall|i: int| 0 <= i < a.len() implies forward_send_ok(st, p, #[trigger] a[i]) by {
                            if i < na.len() {
                                assert(a[i] == na[i]);
                            }
                        }
                    }
                },
                PacketKind::FloodRequest { .. } => {},
                PacketKind::Nack(n) => {
                    if st.hunt_mode && n.nack_type == NackType::Dropped {
                        let h = hunt_actions(st, p.hops[0]);
                        let o = other_actions(st, q);
                        assert forall|i: int| 0 <= i < a.len() implies forward_send_ok(st, p, #[trigger] a[i]) by {
                            if i >= h.len() {
                                assert(a[i] == o[i - h.len()]);
                            }
                        }
                    }
                },
                _ => {},
            }
        }
    }
}

/// What a failed link gives back has its cursor on its route, where the
/// packet that failed had.
pub proof fn lemma_link_failed_routes_valid<S>(
    st: DroneState<S>,
    to: NodeId,
    p: PacketModel,
    allow_optimized: bool,
)
    requires
        p.routable(),
    ensures
        routes_valid(link_failed_actions(st, to, p, allow_optimized)),
{
    if let PacketKind::Fragment(f) = p.kind {
        lemma_nack_routes_valid(
            st,
            p,
            Nack { fragment_index: f.fragment_index, nack_type: NackType::ErrorInRouting(to) },
            allow_optimized,
        );
    }
}

/// A fragment that reaches this running drone on its route, is not for it,
/// is headed for a neighbor and is not dropped is sent on exactly once, with
/// its cursor advanced; it is reported as sent once the link takes it.
pub proof fn lemma_fragment_forwarded<S>(
    st: DroneState<S>,
    p: PacketModel,
    allow_optimized: bool,
    draw: u8,
)
    requires
        p.kind is Fragment,
        at_drone(p, st.id),
        st.running,
        p.hops.last() != st.id,
        st.is_neighbor(p.hops[p.hop_index + 1]),
        draw > st.pdr,
    ensures
        forward_actions(st, p, allow_optimized, draw) == seq![
            ActionModel::Send {
                to: p.hops[p.hop_index + 1],
                packet: at_hop(p, p.hop_index + 1),
                report: true,
            },
        ],
{
}

/// A fragment that reaches this running drone on its route, is not for it,
/// is headed for a neighbor and is dropped gives exactly one Nack of kind
/// `Dropped` back along its route (or to the controller where the way back
/// is not a neighbor), the `PacketSent` event of that Nack, and exactly one
/// `PacketDropped` event, which carries the fragment as it arrived.
pub proof fn lemma_fragment_dropped<S>(
    st: DroneState<S>,
    p: PacketModel,
    allow_optimized: bool,
    draw: u8,
)
    requires
        p.kind is Fragment,
        1 <= p.hop_index,
        at_drone(p, st.id),
        st.running,
        p.hops.last() != st.id,
        st.is_neighbor(p.hops[p.hop_index + 1]),
        draw <= st.pdr,
    ensures
        ({
            let q = at_hop(p, p.hop_index + 1);
            let nack = Nack {
                fragment_index: p.kind->Fragment_0.fragment_index,
                nack_type: NackType::Dropped,
            };
            let np = nack_packet(st, q, nack, allow_optimized);
            &&& np.kind == PacketKind::Nack(nack)
            &&& forward_actions(st, p, allow_optimized, draw) == deliver_actions(
                st,
                np.hops[1],
                np,
                false,
            ) + seq![
                ActionModel::Emit(EventModel::Sent(np)),
                ActionModel::Emit(EventModel::Dropped(p)),
            ]
        }),
{
    let q = at_hop(p, p.hop_index + 1);
    let nack = Nack { fragment_index: p.kind->Fragment_0.fragment_index, nack_type: NackType::Dropped };
    let np = nack_packet(st, q, nack, allow_optimized);
    assert(at_hop(q, q.hop_index - 1) == p);
    assert(deliver_actions(st, np.hops[1], np, false).push(ActionModel::Emit(EventModel::Sent(np))).push(
        ActionModel::Emit(EventModel::Dropped(p)),
    ) =~= deliver_actions(st, np.hops[1], np, false) + seq![
        ActionModel::Emit(EventModel::Sent(np)),
        ActionModel::Emit(EventModel::Dropped(p)),
    ]);
}

/// A copy of `hops[0..t]` followed by `id`.
fn prefix_then(hops: &Vec<NodeId>, t: usize, id: NodeId) -> (r: Vec<NodeId>)
    requires
        t <= hops.len(),
    ensures
        r@ == hops@.subrange(0, t as int).push(id),
{
    let mut r: Vec<NodeId> = Vec::new();
    let mut i: usize = 0;
    while i < t
        invariant
            t <= hops.len(),
            i <= t,
            r@ == hops@.subrange(0, i as int),
        decreases t - i,
    {
        r.push(hops[i]);
        i += 1;
        assert(r@ =~= hops@.subrange(0, i as int));
    }
    r.push(id);
    r
}

/// Relies on rand's `thread_rng().gen_range(1..=100)`: a number drawn from
/// `1..=100` (the range is not empty, so the call does not panic).
#[verifier::external_body]
fn draw_percent() -> (r: u8)
    ensures
        1 <= r <= 100,
{
    rand::thread_rng().gen_range(1..=100)
}

impl<S> RustBustersDrone<S> {
    /// Forwards `packet`, drawing the number that decides a fragment's drop
    /// from `1..=100`.
    pub fn forward_packet(&mut self, packet: Packet, allow_optimized: bool)
        requires
            packet@.hops.len() < usize::MAX,
        ensures
            exists|draw: u8|
                1 <= draw <= 100 && final(self)@ == old(self)@.recording(
                    #[trigger] forward_actions(old(self)@, packet@, allow_optimized, draw),
                ),
    {
        let draw = draw_percent();
        self.forward_packet_with_draw(packet, allow_optimized, draw);
    }

    /// Forwards `packet`; a fragment headed for a neighbor is dropped when
    /// `draw` is at most the drop rate.
    pub fn forward_packet_with_draw(&mut self, packet: Packet, allow_optimized: bool, draw: u8)
        requires
            packet@.hops.len() < usize::MAX,
        ensures
            final(self)@ == old(self)@.recording(
                forward_actions(old(self)@, packet@, allow_optimized, draw),
            ),
    {
        let ghost st = self@;
        let ghost p = packet@;
        if !self.check_self_correct_hop(&packet, allow_optimized) {
            return;
        }
        let id = self.id();
        let mut packet = packet;
        packet.routing_header.hop_index = packet.routing_header.hop_index + 1;
        assert(packet@ == at_hop(p, p.hop_index + 1));
        if !self.is_running() {
            if let PacketType::MsgFragment(f) = &packet.pack_type {
                let nack = Nack {
                    fragment_index: f.fragment_index,
                    nack_type: NackType::ErrorInRouting(id),
                };
                self.send_nack(&packet, nack, allow_optimized);
                return;
            }
        }
        if self.check_final_destination(&packet, allow_optimized) {
            return;
        }
        assert(p.hops.last() != id);
        let next_hop = packet.routing_header.hops[packet.routing_header.hop_index];
        if !self.check_neighbor(&packet, next_hop, allow_optimized) {
            match &packet.pack_type {
                PacketType::MsgFragment(_) | PacketType::FloodRequest(_) => {
                    return;
                },
                _ => {},
            }
        }
        assert(self@ == st);
        match &packet.pack_type {
            PacketType::MsgFragment(f) => {
                let f = *f;
                self.handle_fragment(packet, f, next_hop, allow_optimized, draw);
            },
            PacketType::Nack(n) => {
                if self.hunt_mode() && n.nack_type == NackType::Dropped {
                    let origin = packet.routing_header.hops[0];
                    let _ = self.hunt_ghost(origin);
                    proof {
                        lemma_recording_twice(st, hunt_actions(st, origin), other_actions(st, packet@));
                    }
                }
                self.forward_other_packet(packet);
            },
            PacketType::Ack(_) | PacketType::FloodResponse(_) => {
                self.forward_other_packet(packet);
            },
            PacketType::FloodRequest(_) => {
                assert(st.actions + Seq::<ActionModel>::empty() =~= st.actions);
            },
        }
    }

    /// Takes note that the link to neighbor `to` refused `packet`: the
    /// neighbor is forgotten, and the packet falls back to a Nack (a
    /// fragment), to the controller (an Ack, Nack or FloodResponse), or to
    /// nothing (a flood request).
    pub fn link_failed(&mut self, to: NodeId, packet: Packet, allow_optimized: bool)
        ensures
            final(self)@ == old(self)@.without(to).recording(
                link_failed_actions(old(self)@.without(to), to, packet@, allow_optimized),
            ),
    {
        self.drop_neighbor(to);
        match &packet.pack_type {
            PacketType::MsgFragment(f) => {
                let nack = Nack {
                    fragment_index: f.fragment_index,
                    nack_type: NackType::ErrorInRouting(to),
                };
                self.send_nack(&packet, nack, allow_optimized);
            },
            PacketType::FloodRequest(_) => {
                assert(self@.actions + Seq::<ActionModel>::empty() =~= self@.actions);
            },
            _ => {
                self.record(Action::Emit(DroneEvent::ControllerShortcut(packet)));
            },
        }
    }

    /// Whether `packet` resides at this drone. Where it does not and is a
    /// fragment, an `UnexpectedRecipient` Nack goes back.
    pub fn check_self_correct_hop(&mut self, packet: &Packet, allow_optimized: bool) -> (r:
        bool)
        requires
            packet@.hops.len() < usize::MAX,
        ensures
            r == at_drone(packet@, old(self)@.id),
            r ==> final(self)@ == old(self)@,
            !r ==> final(self)@ == old(self)@.recording(
                misrouted_actions(old(self)@, packet@, allow_optimized),
            ),
    {
        let id = self.id();
        let h = packet.routing_header.hop_index;
        let hops = &packet.routing_header.hops;
        let n = hops.len();
        if h < n && hops[h] == id {
            return true;
        }
        if let PacketType::MsgFragment(f) = &packet.pack_type {
            let mut pos: usize = 0;
            while pos < n && hops[pos] != id
                invariant
                    n == hops.len(),
                    pos <= n,
                    first_from(hops@, id, 0) == first_from(hops@, id, pos as int),
                decreases n - pos,
            {
                pos += 1;
            }
            let t = if h < pos {
                h
            } else {
                pos
            };
            let wrong_way = Packet {
                pack_type: PacketType::MsgFragment(*f),
                routing_header: SourceRoutingHeader {
                    hop_index: t + 1,
                    hops: prefix_then(hops, t, id),
                },
                session_id: packet.session_id,
            };
            self.send_nack(
                &wrong_way,
                Nack { fragment_index: f.fragment_index, nack_type: NackType::UnexpectedRecipient(id) },
                allow_optimized,
            );
            proof {
                assert(wrong_way@ == misrouted(packet@, id));
            }
        } else {
            assert(old(self)@.actions + Seq::<ActionModel>::empty() =~= old(self)@.actions);
        }
        false
    }

    /// Whether this drone is the last hop of `packet` (whose cursor stands
    /// one past it). Where it is and the packet is a fragment, a
    /// `DestinationIsDrone` Nack goes back.
    pub fn check_final_destination(&mut self, packet: &Packet, allow_optimized: bool) -> (r:
        bool)
        ensures
            r == (packet@.hops.len() > 0 && packet@.hops.last() == old(self)@.id),
            r ==> final(self)@ == old(self)@.recording(
                match packet@.kind {
                    PacketKind::Fragment(f) => nack_actions(
                        old(self)@,
                        packet@,
                        Nack { fragment_index: f.fragment_index, nack_type: NackType::DestinationIsDrone },
                        allow_optimized,
                    ),
                    _ => Seq::empty(),
                },
            ),
            !r ==> final(self)@ == old(self)@,
    {
        let n = packet.routing_header.hops.len();
        if n > 0 && packet.routing_header.hops[n - 1] == self.id() {
            if let PacketType::MsgFragment(f) = &packet.pack_type {
                self.send_nack(
                    packet,
                    Nack { fragment_index: f.fragment_index, nack_type: NackType::DestinationIsDrone },
                    allow_optimized,
                );
            } else {
                assert(old(self)@.actions + Seq::<ActionModel>::empty() =~= old(self)@.actions);
            }
            return true;
        }
        false
    }

    /// Whether `next_hop` is a neighbor. Where it is not and `packet` is a
    /// fragment, an `ErrorInRouting` Nack goes back.
    pub fn check_neighbor(&mut self, packet: &Packet, next_hop: NodeId, allow_optimized: bool) -> (r:
        bool)
        ensures
            r == old(self)@.is_neighbor(next_hop),
            r ==> final(self)@ == old(self)@,
            !r ==> final(self)@ == old(self)@.recording(
                match packet@.kind {
                    PacketKind::Fragment(f) => nack_actions(
                        old(self)@,
                        packet@,
                        Nack { fragment_index: f.fragment_index, nack_type: NackType::ErrorInRouting(next_hop) },
                        allow_optimized,
                    ),
                    _ => Seq::empty(),
                },
            ),
    {
        if self.is_neighbor(next_hop) {
            return true;
        }
        if let PacketType::MsgFragment(f) = &packet.pack_type {
            self.send_nack(
                packet,
                Nack { fragment_index: f.fragment_index, nack_type: NackType::ErrorInRouting(next_hop) },
                allow_optimized,
            );
        } else {
            assert(old(self)@.actions + Seq::<ActionModel>::empty() =~= old(self)@.actions);
        }
        false
    }

    /// Drops fragment `packet` (cursor one past this drone) when `draw` is
    /// at most the drop rate, else sends it on to `next_hop`.
    pub fn handle_fragment(
        &mut self,
        packet: Packet,
        fragment: Fragment,
        next_hop: NodeId,
        allow_optimized: bool,
        draw: u8,
    )
        requires
            1 <= packet@.hop_index < packet@.hops.len(),
            next_hop == packet@.hops[packet@.hop_index],
        ensures
            final(self)@ == old(self)@.recording(
                fragment_actions(old(self)@, packet@, fragment, allow_optimized, draw),
            ),
    {
        let ghost st = self@;
        if draw <= self.pdr() {
            self.send_nack(
                &packet,
                Nack { fragment_index: fragment.fragment_index, nack_type: NackType::Dropped },
                allow_optimized,
            );
            let mut dropped = packet;
            dropped.routing_header.hop_index = dropped.routing_header.hop_index - 1;
            self.record(Action::Emit(DroneEvent::PacketDropped(dropped)));
            proof {
                let nack = Nack { fragment_index: fragment.fragment_index, nack_type: NackType::Dropped };
                let e = seq![ActionModel::Emit(EventModel::Dropped(at_hop(packet@, packet@.hop_index - 1)))];
                assert(dropped@ == at_hop(packet@, packet@.hop_index - 1));
                lemma_recording_twice(st, nack_actions(st, packet@, nack, allow_optimized), e);
                assert(nack_actions(st, packet@, nack, allow_optimized) + e =~= fragment_actions(
                    st,
                    packet@,
                    fragment,
                    allow_optimized,
                    draw,
                ));
            }
        } else {
            self.record(Action::Send { to: next_hop, packet, report: true });
        }
    }

    /// Sends an Ack, Nack or FloodResponse (cursor one past this drone) on,
    /// through the optimizer where the drone optimizes routes, or through
    /// the controller where its next hop is not a neighbor.
    pub fn forward_other_packet(&mut self, packet: Packet)
        requires
            1 <= packet@.hop_index < packet@.hops.len(),
        ensures
            final(self)@ == old(self)@.recording(other_actions(old(self)@, packet@)),
    {
        let mut packet = packet;
        let ghost p = packet@;
        let h = packet.routing_header.hop_index;
        if self.optimized_routing() {
            let hops = &packet.routing_header.hops;
            let n = hops.len();
            let mut tail: Vec<NodeId> = Vec::new();
            let mut i: usize = h - 1;
            while i < n
                invariant
                    n == hops.len(),
                    1 <= h < n,
                    h - 1 <= i <= n,
                    tail@ == hops@.subrange(h - 1, i as int),
                decreases n - i,
            {
                tail.push(hops[i]);
                i += 1;
                assert(tail@ =~= hops@.subrange(h - 1, i as int));
            }
            let shortened = self.optimize_route(&tail);
            proof {
                lemma_optimized_is_tail_replacement(tail@, self@.neighbors.dom());
            }
            let mut route = copy_vec(hops);
            route.truncate(h - 1);
            let mut j: usize = 0;
            while j < shortened.len()
                invariant
                    1 <= h,
                    route@ == p.hops.subrange(0, h - 1) + shortened@.subrange(0, j as int),
                    j <= shortened.len(),
                decreases shortened.len() - j,
            {
                route.push(shortened[j]);
                j += 1;
                assert(route@ =~= p.hops.subrange(0, h - 1) + shortened@.subrange(0, j as int));
            }
            assert(shortened@.subrange(0, shortened@.len() as int) =~= shortened@);
            packet.routing_header.hops = route;
        }
        assert(packet@ == PacketModel { hops: other_route(old(self)@, p), ..p });
        let next = packet.routing_header.hops[h];
        self.deliver(next, packet, true);
    }
}

} // verus!
