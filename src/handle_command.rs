//! Controller commands, and the dispatch of inbound packets.
use vstd::prelude::*;
use crate::drone::{DroneState, RustBustersDrone};
use crate::forward_packet::{forward_actions, forward_send_ok, lemma_forward_sends};
use crate::handle_flood::{flood_result, lemma_flood_dedup};
use crate::packet::{
    sends_no_flood_request, ActionModel, DroneCommand, NodeId, Packet, PacketModel, PacketType,
};

verus! {

broadcast use vstd::std_specs::hash::group_hash_axioms;

/// The state after command `c`.
pub open spec fn command_result<S>(st: DroneState<S>, c: DroneCommand<S>) -> DroneState<S> {
    match c {
        DroneCommand::Crash => DroneState { running: false, ..st },
        DroneCommand::AddSender(n, s) => DroneState { neighbors: st.neighbors.insert(n, s), ..st },
        DroneCommand::RemoveSender(n) => DroneState { neighbors: st.neighbors.remove(n), ..st },
        DroneCommand::SetPacketDropRate(p) => DroneState {
            pdr: if p > 100 {
                100
            } else {
                p
            },
            ..st
        },
    }
}

/// The state after an inbound packet, for the random draw `draw`: flood
/// requests go to the flood handler, every other packet to the forwarding
/// engine.
pub open spec fn packet_result<S>(st: DroneState<S>, p: PacketModel, draw: u8) -> DroneState<S> {
    if p.kind is FloodRequest {
        flood_result(st, p)
    } else {
        st.recording(forward_actions(st, p, true, draw))
    }
}

/// Adding a link to a node that was not a neighbor and then removing it
/// leaves the neighbor map as it was.
pub proof fn lemma_add_then_remove_sender<S>(st: DroneState<S>, n: NodeId, s: S)
    requires
        !st.neighbors.contains_key(n),
    ensures
        command_result(
            command_result(st, DroneCommand::AddSender(n, s)),
            DroneCommand::RemoveSender(n),
        ).neighbors == st.neighbors,
{
    assert(st.neighbors.insert(n, s).remove(n) =~= st.neighbors);
}

/// The actions that an inbound packet adds.
pub open spec fn new_actions<S>(st: DroneState<S>, p: PacketModel, draw: u8) -> Seq<ActionModel> {
    let r = packet_result(st, p, draw);
    r.actions.subrange(st.actions.len() as int, r.actions.len() as int)
}

/// A flood request goes onto a link only the first time its key is seen:
/// no other packet makes the drone pass one on, and once the key is seen,
/// a request with that key is only answered.
pub proof fn lemma_flood_request_sent_once<S>(st: DroneState<S>, p: PacketModel, draw: u8)
    requires
        !(p.kind is FloodRequest) || st.seen_floods.contains(
            (p.kind->FloodRequest_flood_id, p.kind->FloodRequest_initiator_id),
        ),
    ensures
        packet_result(st, p, draw).actions.len() >= st.actions.len(),
        sends_no_flood_request(new_actions(st, p, draw)),
{
    if p.kind is FloodRequest {
        lemma_flood_dedup(st, p);
    } else {
        lemma_forward_sends(st, p, true, draw);
        let a = forward_actions(st, p, true, draw);
        assert(new_actions(st, p, draw) =~= a);
        assert forall|i: int| 0 <= i < a.len() && (#[trigger] a[i]) is Send implies !(
        a[i].packet().kind is FloodRequest) by {
            assert(forward_send_ok(st, p, a[i]));
        }
    }
}

/// A crashed drone ignores flood requests, passes no fragment and no flood
/// request on (fragments get a Nack instead), and its event loop ends once
/// its inbound packets are drained.
pub proof fn lemma_crashed_drone<S>(st: DroneState<S>, p: PacketModel, draw: u8)
    requires
        !st.running,
    ensures
        p.kind is FloodRequest ==> packet_result(st, p, draw) == st,
        !(p.kind is FloodRequest) ==> forall|i: int|
            0 <= i < new_actions(st, p, draw).len() && (#[trigger] new_actions(st, p, draw)[i]) is Send
                ==> !(new_actions(st, p, draw)[i].packet().kind is Fragment)
                && !(new_actions(st, p, draw)[i].packet().kind is FloodRequest),
        !packet_result(st, p, draw).running,
{
    if !(p.kind is FloodRequest) {
        lemma_forward_sends(st, p, true, draw);
        let a = forward_actions(st, p, true, draw);
        assert(new_actions(st, p, draw) =~= a);
        assert forall|i: int| 0 <= i < a.len() && (#[trigger] a[i]) is Send implies !(
        a[i].packet().kind is Fragment) && !(a[i].packet().kind is FloodRequest) by {
            assert(forward_send_ok(st, p, a[i]));
        }
    }
}

impl<S> RustBustersDrone<S> {
    /// Applies a controller command.
    pub fn handle_command(&mut self, command: DroneCommand<S>)
        ensures
            final(self)@ == command_result(old(self)@, command),
    {
        match command {
            DroneCommand::Crash => {
                self.crash();
            },
            DroneCommand::AddSender(n, s) => {
                self.add_neighbor(n, s);
            },
            DroneCommand::RemoveSender(n) => {
                self.drop_neighbor(n);
            },
            DroneCommand::SetPacketDropRate(p) => {
                self.set_pdr(p);
            },
        }
    }

    /// Handles a packet from a neighbor.
    pub fn handle_packet(&mut self, packet: Packet)
        requires
            packet@.hops.len() < usize::MAX,
        ensures
            exists|draw: u8|
                1 <= draw <= 100 && final(self)@ == #[trigger] packet_result(
                    old(self)@,
                    packet@,
                    draw,
                ),
    {
        if let PacketType::FloodRequest(_) = &packet.pack_type {
            self.handle_flood_request(packet);
            assert(packet_result(old(self)@, packet@, 1) == self@);
        } else {
            let ghost p = packet@;
            self.forward_packet(packet, true);
            let ghost d = choose|d: u8|
                1 <= d <= 100 && self@ == old(self)@.recording(
                    #[trigger] forward_actions(old(self)@, p, true, d),
                );
            assert(packet_result(old(self)@, p, d) == self@);
        }
    }

    /// Whether the event loop goes on: while the drone runs, and after a
    /// crash until its inbound packets are drained.
    pub fn keeps_running(&self, inbound_empty: bool) -> (r: bool)
        ensures
            r == (self@.running || !inbound_empty),
    {
        self.is_running() || !inbound_empty
    }
}

} // verus!
