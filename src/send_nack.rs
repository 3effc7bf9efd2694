//! Negative and positive acknowledgements, sent back along the route a
//! packet came by.
use vstd::prelude::*;
use crate::drone::{deliver_actions, lemma_recording_twice, DroneState, RustBustersDrone};
use crate::packet::{
    lemma_routes_valid_concat, routes_valid, Ack, Action, ActionModel, DroneEvent, EventModel, Nack, NodeId, Packet, PacketKind,
    PacketModel, PacketType, SourceRoutingHeader,
};
use crate::route::{lemma_optimized_is_tail_replacement, optimized_path};

verus! {

/// The route from hop `k` of `hops` back to the source, shortened by the
/// optimizer where `optimize` is set.
pub open spec fn return_route<S>(
    st: DroneState<S>,
    hops: Seq<NodeId>,
    k: int,
    optimize: bool,
) -> Seq<NodeId> {
    let back = hops.subrange(0, k + 1).reverse();
    if optimize {
        optimized_path(back, st.neighbors.dom())
    } else {
        back
    }
}

/// The Nack for packet `p`, whose cursor stands one past this drone.
pub open spec fn nack_packet<S>(
    st: DroneState<S>,
    p: PacketModel,
    nack: Nack,
    allow_optimized: bool,
) -> PacketModel {
    PacketModel {
        kind: PacketKind::Nack(nack),
        hop_index: 1,
        hops: return_route(st, p.hops, p.hop_index - 1, st.optimized_routing && allow_optimized),
        session_id: p.session_id,
    }
}

/// A packet with its cursor one past this drone can be answered when this
/// drone is not the first hop and stands on the route.
pub open spec fn can_answer(p: PacketModel) -> bool {
    1 <= p.hop_index - 1 < p.hops.len()
}

/// What `send_nack` records: nothing where the packet cannot be answered;
/// else the Nack on its way to the second hop of its route (or to the
/// controller), then a `PacketSent` event for it.
pub open spec fn nack_actions<S>(
    st: DroneState<S>,
    p: PacketModel,
    nack: Nack,
    allow_optimized: bool,
) -> Seq<ActionModel> {
    if !can_answer(p) {
        Seq::empty()
    } else {
        let np = nack_packet(st, p, nack, allow_optimized);
        deliver_actions(st, np.hops[1], np, false).push(ActionModel::Emit(EventModel::Sent(np)))
    }
}

pub proof fn lemma_return_route_len<S>(st: DroneState<S>, hops: Seq<NodeId>, k: int, optimize: bool)
    requires
        1 <= k < hops.len(),
    ensures
        return_route(st, hops, k, optimize).len() >= 2,
{
    lemma_optimized_is_tail_replacement(hops.subrange(0, k + 1).reverse(), st.neighbors.dom());
}

/// A Nack leaves with its cursor on its route.
pub proof fn lemma_nack_routes_valid<S>(
    st: DroneState<S>,
    p: PacketModel,
    nack: Nack,
    allow_optimized: bool,
)
    ensures
        routes_valid(nack_actions(st, p, nack, allow_optimized)),
{
    if can_answer(p) {
        lemma_return_route_len(st, p.hops, p.hop_index - 1, st.optimized_routing && allow_optimized);
        let np = nack_packet(st, p, nack, allow_optimized);
        assert(np.routable());
        let d = deliver_actions(st, np.hops[1], np, false);
        let e = seq![ActionModel::Emit(EventModel::Sent(np))];
        assert(routes_valid(d));
        assert(routes_valid(e));
        lemma_routes_valid_concat(d, e);
        assert(d + e =~= nack_actions(st, p, nack, allow_optimized));
    }
}

/// Everything `send_nack` emits carries the Nack.
pub proof fn lemma_nack_actions_kind<S>(
    st: DroneState<S>,
    p: PacketModel,
    nack: Nack,
    allow_optimized: bool,
)
    ensures
        forall|i: int|
            0 <= i < nack_actions(st, p, nack, allow_optimized).len() ==> (#[trigger] nack_actions(
                st,
                p,
                nack,
                allow_optimized,
            )[i]).packet().kind == PacketKind::Nack(nack),
{
}

/// The Ack for packet `p`, whose cursor stands one past this drone.
pub open spec fn ack_packet<S>(st: DroneState<S>, p: PacketModel, fragment_index: u64) -> PacketModel {
    PacketModel {
        kind: PacketKind::Ack(Ack { fragment_index }),
        hop_index: 1,
        hops: return_route(st, p.hops, p.hop_index - 1, st.optimized_routing),
        session_id: p.session_id,
    }
}

/// What `send_ack` records: nothing where the packet cannot be answered,
/// else the Ack on its way to the second hop of its route (or to the
/// controller).
pub open spec fn ack_actions<S>(st: DroneState<S>, p: PacketModel, fragment_index: u64) -> Seq<
    ActionModel,
> {
    if !can_answer(p) {
        Seq::empty()
    } else {
        let ap = ack_packet(st, p, fragment_index);
        deliver_actions(st, ap.hops[1], ap, false)
    }
}

/// `hops[0..=k]`, last hop first.
pub fn reversed_prefix(hops: &Vec<NodeId>, k: usize) -> (r: Vec<NodeId>)
    requires
        k < hops.len(),
    ensures
        r@ == hops@.subrange(0, k + 1).reverse(),
{
    let mut r: Vec<NodeId> = Vec::new();
    let mut t: usize = 0;
    while t <= k
        invariant
            k < hops.len(),
            t <= k + 1,
            r@.len() == t,
            forall|m: int| 0 <= m < t ==> r@[m] == hops@[k - m],
        decreases k + 1 - t,
    {
        r.push(hops[k - t]);
        t += 1;
    }
    assert(r@ =~= hops@.subrange(0, k + 1).reverse());
    r
}

impl<S> RustBustersDrone<S> {
    /// The route back from hop `k` of `hops`, optimized where `optimize` is
    /// set: at least two hops long.
    fn route_back(&self, hops: &Vec<NodeId>, k: usize, optimize: bool) -> (r: Vec<NodeId>)
        requires
            1 <= k < hops.len(),
        ensures
            r@ == return_route(self@, hops@, k as int, optimize),
            r@.len() >= 2,
    {
        let back = reversed_prefix(hops, k);
        proof {
            lemma_optimized_is_tail_replacement(back@, self@.neighbors.dom());
        }
        if optimize {
            self.optimize_route(&back)
        } else {
            back
        }
    }

    /// Sends `nack` back along the route that `packet` took to reach this
    /// drone (`packet`'s cursor stands one past this drone).
    pub fn send_nack(&mut self, packet: &Packet, nack: Nack, allow_optimized: bool)
        ensures
            final(self)@ == old(self)@.recording(
                nack_actions(old(self)@, packet@, nack, allow_optimized),
            ),
    {
        let h = packet.routing_header.hop_index;
        if h < 2 || h - 1 >= packet.routing_header.hops.len() {
            assert(old(self)@.recording(Seq::empty()) =~= old(self)@.recording(Seq::empty()));
            assert(old(self)@.actions + Seq::<ActionModel>::empty() =~= old(self)@.actions);
            return;
        }
        let ghost st = self@;
        let optimize = self.optimized_routing() && allow_optimized;
        let hops = self.route_back(&packet.routing_header.hops, h - 1, optimize);
        let to = hops[1];
        let np = Packet {
            pack_type: PacketType::Nack(nack),
            routing_header: SourceRoutingHeader { hop_index: 1, hops },
            session_id: packet.session_id,
        };
        let event = DroneEvent::PacketSent(np.duplicate());
        self.deliver(to, np, false);
        self.record(Action::Emit(event));
        proof {
            let np = nack_packet(st, packet@, nack, allow_optimized);
            lemma_recording_twice(
                st,
                deliver_actions(st, to, np, false),
                seq![ActionModel::Emit(EventModel::Sent(np))],
            );
            assert(deliver_actions(st, to, np, false) + seq![ActionModel::Emit(EventModel::Sent(np))]
                =~= nack_actions(st, packet@, nack, allow_optimized));
        }
    }

    /// Sends an Ack for fragment `fragment_index` back along the route of
    /// `routing_header` (whose cursor stands one past this drone).
    pub fn send_ack(
        &mut self,
        session_id: u64,
        fragment_index: u64,
        routing_header: &SourceRoutingHeader,
    )
        ensures
            ({
                let p = PacketModel {
                    kind: PacketKind::Ack(Ack { fragment_index }),
                    hop_index: routing_header.hop_index as int,
                    hops: routing_header.hops@,
                    session_id,
                };
                final(self)@ == old(self)@.recording(ack_actions(old(self)@, p, fragment_index))
            }),
    {
        let h = routing_header.hop_index;
        if h < 2 || h - 1 >= routing_header.hops.len() {
            assert(old(self)@.actions + Seq::<ActionModel>::empty() =~= old(self)@.actions);
            return;
        }
        let optimize = self.optimized_routing();
        let hops = self.route_back(&routing_header.hops, h - 1, optimize);
        let to = hops[1];
        let ap = Packet {
            pack_type: PacketType::Ack(Ack { fragment_index }),
            routing_header: SourceRoutingHeader { hop_index: 1, hops },
            session_id,
        };
        self.deliver(to, ap, false);
    }
}

} // verus!
