//! The flood protocol: deduplication, propagation to the neighbors, and
//! flood responses back to the initiator.
use vstd::prelude::*;
use crate::drone::{deliver_actions, DroneState, RustBustersDrone};
use crate::packet::{
    routes_valid, sends_no_flood_request, copy_vec, Action, ActionModel, FloodRequest, FloodResponse, NodeId, NodeType, Packet,
    PacketKind, PacketModel, PacketType, SourceRoutingHeader,
};
use crate::route::{lemma_optimized_is_tail_replacement, optimized_path};

verus! {

pub open spec fn trace_ids(trace: Seq<(NodeId, NodeType)>) -> Seq<NodeId> {
    trace.map_values(|e: (NodeId, NodeType)| e.0)
}

/// The route of a flood response: the trace backwards, ending at the
/// initiator.
pub open spec fn flood_return_path(trace: Seq<(NodeId, NodeType)>, initiator_id: NodeId) -> Seq<
    NodeId,
> {
    let back = trace_ids(trace).reverse();
    if back.len() > 0 && back.last() == initiator_id {
        back
    } else {
        back.push(initiator_id)
    }
}

pub open spec fn flood_response_packet<S>(
    st: DroneState<S>,
    flood_id: u64,
    initiator_id: NodeId,
    trace: Seq<(NodeId, NodeType)>,
    session_id: u64,
) -> PacketModel {
    let route = flood_return_path(trace, initiator_id);
    PacketModel {
        kind: PacketKind::FloodResponse { flood_id, path_trace: trace },
        hop_index: 1,
        hops: if st.optimized_routing {
            optimized_path(route, st.neighbors.dom())
        } else {
            route
        },
        session_id,
    }
}

/// What answering a flood request records: the response on its way to the
/// sender, or to the controller where the sender is not a neighbor.
pub open spec fn flood_response_actions<S>(
    st: DroneState<S>,
    flood_id: u64,
    initiator_id: NodeId,
    trace: Seq<(NodeId, NodeType)>,
    session_id: u64,
    sender_id: NodeId,
) -> Seq<ActionModel> {
    deliver_actions(
        st,
        sender_id,
        flood_response_packet(st, flood_id, initiator_id, trace, session_id),
        true,
    )
}

/// The neighbors below `n` other than `sender_id`, in increasing order.
pub open spec fn targets_below<S>(st: DroneState<S>, sender_id: NodeId, n: int) -> Seq<NodeId>
    decreases n,
{
    if n <= 0 {
        Seq::empty()
    } else {
        let prev = targets_below(st, sender_id, n - 1);
        let c = (n - 1) as NodeId;
        if st.is_neighbor(c) && c != sender_id {
            prev.push(c)
        } else {
            prev
        }
    }
}

/// The neighbors that a flood request from `sender_id` is passed on to.
pub open spec fn flood_targets<S>(st: DroneState<S>, sender_id: NodeId) -> Seq<NodeId> {
    targets_below(st, sender_id, 256)
}

pub open spec fn flood_request_packet(
    id: NodeId,
    to: NodeId,
    flood_id: u64,
    initiator_id: NodeId,
    trace: Seq<(NodeId, NodeType)>,
    session_id: u64,
) -> PacketModel {
    PacketModel {
        kind: PacketKind::FloodRequest { flood_id, initiator_id, path_trace: trace },
        hop_index: 1,
        hops: seq![id, to],
        session_id,
    }
}

pub open spec fn spread_send(
    id: NodeId,
    to: NodeId,
    flood_id: u64,
    initiator_id: NodeId,
    trace: Seq<(NodeId, NodeType)>,
    session_id: u64,
) -> ActionModel {
    ActionModel::Send {
        to,
        packet: flood_request_packet(id, to, flood_id, initiator_id, trace, session_id),
        report: true,
    }
}

/// What spreading a flood request records: a copy to each neighbor but the
/// sender, or, where there is none, the response.
pub open spec fn spread_actions<S>(
    st: DroneState<S>,
    flood_id: u64,
    initiator_id: NodeId,
    trace: Seq<(NodeId, NodeType)>,
    session_id: u64,
    sender_id: NodeId,
) -> Seq<ActionModel> {
    let targets = flood_targets(st, sender_id);
    if targets.len() == 0 {
        flood_response_actions(st, flood_id, initiator_id, trace, session_id, sender_id)
    } else {
        targets.map_values(
            |to: NodeId| spread_send(st.id, to, flood_id, initiator_id, trace, session_id),
        )
    }
}

/// The state after the drone handled packet `p` as a flood request.
pub open spec fn flood_result<S>(st: DroneState<S>, p: PacketModel) -> DroneState<S> {
    match p.kind {
        PacketKind::FloodRequest { flood_id, initiator_id, path_trace } => if !st.running {
            st
        } else {
            let sender_id = if path_trace.len() > 0 {
                path_trace.last().0
            } else {
                initiator_id
            };
            let trace = path_trace.push((st.id, NodeType::Drone));
            if st.seen_floods.contains((flood_id, initiator_id)) {
                st.recording(
                    flood_response_actions(st, flood_id, initiator_id, trace, p.session_id, sender_id),
                )
            } else {
                let seen = st.seeing((flood_id, initiator_id));
                seen.recording(
                    spread_actions(seen, flood_id, initiator_id, trace, p.session_id, sender_id),
                )
            }
        },
        _ => st,
    }
}

proof fn lemma_flood_response_routable<S>(
    st: DroneState<S>,
    flood_id: u64,
    initiator_id: NodeId,
    path_trace: Seq<(NodeId, NodeType)>,
    session_id: u64,
)
    requires
        path_trace.len() > 0 || initiator_id != st.id,
    ensures
        flood_response_packet(
            st,
            flood_id,
            initiator_id,
            path_trace.push((st.id, NodeType::Drone)),
            session_id,
        ).routable(),
{
    let trace = path_trace.push((st.id, NodeType::Drone));
    let back = trace_ids(trace).reverse();
    let route = flood_return_path(trace, initiator_id);
    if path_trace.len() == 0 {
        assert(back.last() == st.id);
    }
    assert(route.len() >= 2);
    lemma_optimized_is_tail_replacement(route, st.neighbors.dom());
}

/// Every packet that handling a flood request emits has its cursor on its
/// route, unless the request comes from this drone itself with an empty
/// trace: its answer would have a route of this drone alone.
pub proof fn lemma_flood_routes_valid<S>(st: DroneState<S>, p: PacketModel)
    requires
        routes_valid(st.actions),
        p.kind matches PacketKind::FloodRequest { initiator_id, path_trace, .. } ==> path_trace.len()
            > 0 || initiator_id != st.id,
    ensures
        routes_valid(flood_result(st, p).actions),
{
    if let PacketKind::FloodRequest { flood_id, initiator_id, path_trace } = p.kind {
        if st.running {
            let trace = path_trace.push((st.id, NodeType::Drone));
            let sender_id = if path_trace.len() > 0 {
                path_trace.last().0
            } else {
                initiator_id
            };
            lemma_flood_response_routable(st, flood_id, initiator_id, path_trace, p.session_id);
            let st2 = if st.seen_floods.contains((flood_id, initiator_id)) {
                st
            } else {
                st.seeing((flood_id, initiator_id))
            };
            lemma_flood_response_routable(st2, flood_id, initiator_id, path_trace, p.session_id);
            let r = flood_result(st, p).actions;
            assert forall|i: int| 0 <= i < r.len() implies (#[trigger] r[i]).packet().routable() || (
            r[i] is Emit && r[i].packet().hops.len() == 0) by {
                if i >= st.actions.len() {
                    assert(r[i].packet().routable());
                }
            }
        }
    }
}

/// The targets below `n` are neighbors other than the sender, in strictly
/// increasing order.
pub proof fn lemma_targets_below<S>(st: DroneState<S>, sender_id: NodeId, n: int)
    requires
        0 <= n <= 256,
    ensures
        forall|i: int, j: int|
            0 <= i < j < targets_below(st, sender_id, n).len() ==> targets_below(st, sender_id, n)[i]
                < targets_below(st, sender_id, n)[j],
        forall|i: int|
            0 <= i < targets_below(st, sender_id, n).len() ==> {
                let t = #[trigger] targets_below(st, sender_id, n)[i];
                &&& t < n
                &&& st.is_neighbor(t)
                &&& t != sender_id
            },
    decreases n,
{
    if n > 0 {
        lemma_targets_below(st, sender_id, n - 1);
        let prev = targets_below(st, sender_id, n - 1);
        let c = (n - 1) as NodeId;
        assert(c == n - 1);
        let cur = targets_below(st, sender_id, n);
        if st.is_neighbor(c) && c != sender_id {
            assert(cur == prev.push(c));
            assert forall|i: int| 0 <= i < cur.len() implies {
                let t = #[trigger] cur[i];
                &&& t < n
                &&& st.is_neighbor(t)
                &&& t != sender_id
            } by {
                if i < prev.len() {
                    assert(cur[i] == prev[i]);
                }
            }
            assert forall|i: int, j: int| 0 <= i < j < cur.len() implies cur[i] < cur[j] by {
                assert(cur[i] == prev[i]);
                if j < prev.len() {
                    assert(cur[j] == prev[j]);
                }
            }
        }
    }
}

/// The first time a flood request is seen, each copy that the drone passes
/// on goes to a neighbor other than the sender, and no two copies go to the
/// same neighbor.
pub proof fn lemma_spread_once_per_neighbor<S>(st: DroneState<S>, p: PacketModel)
    requires
        p.kind is FloodRequest,
        st.running,
        !st.seen_floods.contains((p.kind->FloodRequest_flood_id, p.kind->FloodRequest_initiator_id)),
    ensures
        ({
            let r = flood_result(st, p).actions;
            let sender_id = if p.kind->FloodRequest_path_trace.len() > 0 {
                p.kind->FloodRequest_path_trace.last().0
            } else {
                p.kind->FloodRequest_initiator_id
            };
            &&& r.len() >= st.actions.len()
            &&& forall|i: int|
                st.actions.len() <= i < r.len() && (#[trigger] r[i]) is Send && r[i].packet().kind is FloodRequest
                    ==> st.is_neighbor(r[i]->Send_to) && r[i]->Send_to != sender_id
            &&& forall|i: int, j: int|
                st.actions.len() <= i < j < r.len() && (#[trigger] r[i]) is Send && (#[trigger] r[j]) is Send
                    && r[i].packet().kind is FloodRequest ==> r[i]->Send_to != r[j]->Send_to
        }),
{
    let key = (p.kind->FloodRequest_flood_id, p.kind->FloodRequest_initiator_id);
    let seen = st.seeing(key);
    let sender_id = if p.kind->FloodRequest_path_trace.len() > 0 {
        p.kind->FloodRequest_path_trace.last().0
    } else {
        p.kind->FloodRequest_initiator_id
    };
    lemma_targets_below(seen, sender_id, 256);
    let r = flood_result(st, p).actions;
    let base = st.actions.len() as int;
    let targets = flood_targets(seen, sender_id);
    if targets.len() > 0 {
        assert forall|i: int|
            base <= i < r.len() && (#[trigger] r[i]) is Send && r[i].packet().kind is FloodRequest
                implies st.is_neighbor(r[i]->Send_to) && r[i]->Send_to != sender_id by {
            assert(r[i]->Send_to == targets[i - base]);
        }
        assert forall|i: int, j: int|
            base <= i < j < r.len() && (#[trigger] r[i]) is Send && (#[trigger] r[j]) is Send
                && r[i].packet().kind is FloodRequest implies r[i]->Send_to != r[j]->Send_to by {
            assert(r[i]->Send_to == targets[i - base]);
            assert(r[j]->Send_to == targets[j - base]);
        }
    }
}

/// A flood request whose key was seen before is not passed on again: the
/// drone only answers it. A running drone remembers every key it handled,
/// and never forgets one.
pub proof fn lemma_flood_dedup<S>(st: DroneState<S>, p: PacketModel)
    requires
        p.kind is FloodRequest,
    ensures
        ({
            let key = (p.kind->FloodRequest_flood_id, p.kind->FloodRequest_initiator_id);
            let r = flood_result(st, p);
            &&& st.seen_floods.subset_of(r.seen_floods)
            &&& st.running ==> r.seen_floods.contains(key)
            &&& st.seen_floods.contains(key) ==> r.actions.len() >= st.actions.len()
                && sends_no_flood_request(r.actions.subrange(st.actions.len() as int, r.actions.len() as int))
        }),
{
    let key = (p.kind->FloodRequest_flood_id, p.kind->FloodRequest_initiator_id);
    let r = flood_result(st, p);
    if st.seen_floods.contains(key) {
        let n = r.actions.subrange(st.actions.len() as int, r.actions.len() as int);
        assert forall|i: int| 0 <= i < n.len() && (#[trigger] n[i]) is Send implies !(n[i].packet().kind is FloodRequest) by {
            assert(n[i] == r.actions[st.actions.len() + i]);
        }
    }
}

/// The ids of `trace`, last first.
fn reversed_ids(trace: &Vec<(NodeId, NodeType)>) -> (r: Vec<NodeId>)
    ensures
        r@ == trace_ids(trace@).reverse(),
{
    let n = trace.len();
    let mut r: Vec<NodeId> = Vec::new();
    let mut t: usize = 0;
    while t < n
        invariant
            n == trace.len(),
            t <= n,
            r@.len() == t,
            forall|m: int| 0 <= m < t ==> r@[m] == trace@[n - 1 - m].0,
        decreases n - t,
    {
        r.push(trace[n - 1 - t].0);
        t += 1;
    }
    assert(r@ =~= trace_ids(trace@).reverse());
    r
}

impl<S> RustBustersDrone<S> {
    /// Handles a flood request: a crashed drone ignores it, as it does any
    /// other kind of packet; a request seen before is answered; a new one
    /// is remembered and passed on.
    pub fn handle_flood_request(&mut self, packet: Packet)
        ensures
            final(self)@ == flood_result(old(self)@, packet@),
    {
        if !self.is_running() {
            return;
        }
        if let PacketType::FloodRequest(request) = &packet.pack_type {
            let n = request.path_trace.len();
            let sender_id = if n > 0 {
                request.path_trace[n - 1].0
            } else {
                request.initiator_id
            };
            let mut trace = copy_vec(&request.path_trace);
            trace.push((self.id(), NodeType::Drone));
            let forwarded = FloodRequest {
                flood_id: request.flood_id,
                initiator_id: request.initiator_id,
                path_trace: trace,
            };
            if self.has_seen_flood(request.flood_id, request.initiator_id) {
                self.send_flood_response(&forwarded, packet.session_id, sender_id);
            } else {
                self.spread_flood_request(&forwarded, packet.session_id, sender_id);
            }
        }
    }

    /// Answers `request` (whose trace ends at this drone) with a flood
    /// response to `sender_id`.
    pub fn send_flood_response(
        &mut self,
        request: &FloodRequest,
        session_id: u64,
        sender_id: NodeId,
    )
        ensures
            final(self)@ == old(self)@.recording(
                flood_response_actions(
                    old(self)@,
                    request.flood_id,
                    request.initiator_id,
                    request.path_trace@,
                    session_id,
                    sender_id,
                ),
            ),
    {
        let mut route = reversed_ids(&request.path_trace);
        let n = route.len();
        if !(n > 0 && route[n - 1] == request.initiator_id) {
            route.push(request.initiator_id);
        }
        let hops = if self.optimized_routing() {
            self.optimize_route(&route)
        } else {
            route
        };
        let response = Packet {
            pack_type: PacketType::FloodResponse(
                FloodResponse { flood_id: request.flood_id, path_trace: copy_vec(&request.path_trace) },
            ),
            routing_header: SourceRoutingHeader { hop_index: 1, hops },
            session_id,
        };
        self.deliver(sender_id, response, true);
    }

    /// The neighbors other than `sender_id`, in increasing order.
    fn neighbors_except(&self, sender_id: NodeId) -> (r: Vec<NodeId>)
        ensures
            r@ == flood_targets(self@, sender_id),
    {
        let mut r: Vec<NodeId> = Vec::new();
        let mut n: u16 = 0;
        while n < 256
            invariant
                n <= 256,
                r@ == targets_below(self@, sender_id, n as int),
            decreases 256 - n,
        {
            let c = n as NodeId;
            if self.is_neighbor(c) && c != sender_id {
                r.push(c);
            }
            n += 1;
        }
        r
    }

    /// Remembers the key of `request` (whose trace ends at this drone) and
    /// passes the request on to every neighbor but `sender_id`, or answers
    /// it where there is none.
    pub fn spread_flood_request(
        &mut self,
        request: &FloodRequest,
        session_id: u64,
        sender_id: NodeId,
    )
        ensures
            final(self)@ == old(self)@.seeing((request.flood_id, request.initiator_id)).recording(
                spread_actions(
                    old(self)@.seeing((request.flood_id, request.initiator_id)),
                    request.flood_id,
                    request.initiator_id,
                    request.path_trace@,
                    session_id,
                    sender_id,
                ),
            ),
    {
        self.remember_flood((request.flood_id, request.initiator_id));
        let ghost st = self@;
        let targets = self.neighbors_except(sender_id);
        if targets.len() == 0 {
            self.send_flood_response(request, session_id, sender_id);
            return;
        }
        let id = self.id();
        let ghost sends = targets@.map_values(
            |to: NodeId|
                spread_send(
                    id,
                    to,
                    request.flood_id,
                    request.initiator_id,
                    request.path_trace@,
                    session_id,
                ),
        );
        let mut i: usize = 0;
        while i < targets.len()
            invariant
                i <= targets.len(),
                id == st.id,
                sends.len() == targets@.len(),
                forall|j: int|
                    0 <= j < targets@.len() ==> #[trigger] sends[j] == spread_send(
                        id,
                        targets@[j],
                        request.flood_id,
                        request.initiator_id,
                        request.path_trace@,
                        session_id,
                    ),
                self@ == st.recording(sends.subrange(0, i as int)),
            decreases targets.len() - i,
        {
            let to = targets[i];
            let copy = Packet {
                pack_type: PacketType::FloodRequest(
                    FloodRequest {
                        flood_id: request.flood_id,
                        initiator_id: request.initiator_id,
                        path_trace: copy_vec(&request.path_trace),
                    },
                ),
                routing_header: SourceRoutingHeader { hop_index: 1, hops: vec![id, to] },
                session_id,
            };
            self.record(Action::Send { to, packet: copy, report: true });
            proof {
                assert(st.actions + sends.subrange(0, i as int) + seq![sends[i as int]] =~= st.actions
                    + sends.subrange(0, i + 1));
            }
            i += 1;
        }
        assert(sends.subrange(0, i as int) =~= sends);
    }
}

} // verus!
