//! Hunt mode: a report to the controller about the drone that dropped a
//! packet.
use vstd::prelude::*;
use crate::drone::{DroneState, RustBustersDrone};
use crate::packet::{
    Action, ActionModel, DroneEvent, EventModel, Fragment, NodeId, Packet, PacketKind, PacketModel,
    PacketType, SourceRoutingHeader, FRAGMENT_DSIZE,
};

verus! {

/// The `length` that marks a fragment as a hunt record.
pub const PACKET_CONST: u8 = 169;

/// The fragment of the hunt record that drone `id` sends about
/// `target_id`: zero indices, the marker length, `data[0] == id`,
/// `data[1] == target_id`, and zeros after.
pub open spec fn is_hunt_fragment(f: Fragment, id: NodeId, target_id: NodeId) -> bool {
    &&& f.fragment_index == 0
    &&& f.total_n_fragments == 0
    &&& f.length == PACKET_CONST
    &&& f.data@[0] == id
    &&& f.data@[1] == target_id
    &&& forall|i: int| 2 <= i < f.data@.len() ==> f.data@[i] == 0
}

/// The hunt record: that fragment, with an empty route and session 0.
pub open spec fn hunt_packet(id: NodeId, target_id: NodeId) -> PacketModel {
    PacketModel {
        kind: PacketKind::Fragment(choose|f: Fragment| is_hunt_fragment(f, id, target_id)),
        hop_index: 0,
        hops: Seq::empty(),
        session_id: 0,
    }
}

pub open spec fn hunt_actions<S>(st: DroneState<S>, target_id: NodeId) -> Seq<ActionModel> {
    seq![ActionModel::Emit(EventModel::Sent(hunt_packet(st.id, target_id)))]
}

proof fn lemma_hunt_fragment_unique(f: Fragment, g: Fragment, id: NodeId, target_id: NodeId)
    requires
        is_hunt_fragment(f, id, target_id),
        is_hunt_fragment(g, id, target_id),
    ensures
        f == g,
{
    assert(f.data@ =~= g.data@);
    assert(f.data == g.data);
}

impl<S> RustBustersDrone<S> {
    /// Reports to the controller, as a hunt record, that `target_id` dropped
    /// a packet; refused when hunt mode is off. The record is handed over as
    /// an action: whether the controller's channel takes it is known only to
    /// whoever performs the action, so a closed controller channel is not an
    /// error of this call.
    pub fn hunt_ghost(&mut self, target_id: NodeId) -> (r: Result<(), String>)
        ensures
            old(self)@.hunt_mode ==> r is Ok && final(self)@ == old(self)@.recording(
                hunt_actions(old(self)@, target_id),
            ),
            !old(self)@.hunt_mode ==> r is Err && r->Err_0@ == "Drone is not in hunt mode"@
                && final(self)@ == old(self)@,
    {
        if !self.hunt_mode() {
            return Err("Drone is not in hunt mode".to_string());
        }
        let mut data = [0u8; FRAGMENT_DSIZE];
        self.set_data(&mut data, target_id);
        let hunt_packet = Packet {
            pack_type: PacketType::MsgFragment(
                Fragment { fragment_index: 0, total_n_fragments: 0, length: PACKET_CONST, data },
            ),
            routing_header: SourceRoutingHeader { hop_index: 0, hops: Vec::new() },
            session_id: 0,
        };
        proof {
            let f = hunt_packet.pack_type->MsgFragment_0;
            assert(is_hunt_fragment(f, self@.id, target_id));
            lemma_hunt_fragment_unique(
                f,
                choose|g: Fragment| is_hunt_fragment(g, self@.id, target_id),
                self@.id,
                target_id,
            );
            assert(hunt_packet@.hops =~= Seq::<NodeId>::empty());
        }
        self.record(Action::Emit(DroneEvent::PacketSent(hunt_packet)));
        Ok(())
    }

    /// Writes this drone's id and `target_id` in the first two bytes of
    /// `data`.
    pub fn set_data(&self, data: &mut [u8; FRAGMENT_DSIZE], target_id: NodeId)
        ensures
            final(data)@ == old(data)@.update(0, self@.id).update(1, target_id),
    {
        data[0] = self.id();
        data[1] = target_id;
    }
}

} // verus!
