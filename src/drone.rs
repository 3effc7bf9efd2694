//! The drone's state, its model, and the bookkeeping shared by its handlers.
use vstd::prelude::*;
use std::collections::{HashMap, HashSet};
use crate::packet::{Action, ActionModel, DroneEvent, EventModel, NodeId, Packet, PacketModel};

verus! {

broadcast use vstd::std_specs::hash::group_hash_axioms;

/// Marks the drone types of this library.
pub trait IsRustBustersDrone {}

impl<S> IsRustBustersDrone for RustBustersDrone<S> {}

/// A forwarding node. `S` is the type of an outbound link to a neighbor:
/// the drone keeps the links but never uses them itself; it asks for sends
/// through the actions it records.
pub struct RustBustersDrone<S> {
    id: NodeId,
    pdr: DropRate,
    packet_send: HashMap<NodeId, S>,
    /// The seen flood keys, each stored as `flood_key` of it.
    received_floods: HashSet<u128>,
    optimized_routing: bool,
    running: bool,
    hunt_mode: bool,
    outbox: Vec<Action>,
}

/// The model of a drone.
pub struct DroneState<S> {
    pub id: NodeId,
    /// Packet drop rate in percent.
    pub pdr: u8,
    /// The outbound link of each neighbor.
    pub neighbors: Map<NodeId, S>,
    /// The `(flood_id, initiator_id)` keys of the flood requests seen so far.
    pub seen_floods: Set<(u64, NodeId)>,
    pub optimized_routing: bool,
    pub running: bool,
    pub hunt_mode: bool,
    /// The actions recorded and not taken yet, oldest first.
    pub actions: Seq<ActionModel>,
}

impl<S> DroneState<S> {
    /// The same state with `extra` recorded after the pending actions.
    pub open spec fn recording(self, extra: Seq<ActionModel>) -> DroneState<S> {
        DroneState { actions: self.actions + extra, ..self }
    }

    /// The same state with no action pending.
    pub open spec fn cleared(self) -> DroneState<S> {
        DroneState { actions: Seq::empty(), ..self }
    }

    /// The same state without neighbor `n`.
    pub open spec fn without(self, n: NodeId) -> DroneState<S> {
        DroneState { neighbors: self.neighbors.remove(n), ..self }
    }

    /// The same state with flood key `key` seen.
    pub open spec fn seeing(self, key: (u64, NodeId)) -> DroneState<S> {
        DroneState { seen_floods: self.seen_floods.insert(key), ..self }
    }

    pub open spec fn is_neighbor(self, n: NodeId) -> bool {
        self.neighbors.contains_key(n)
    }
}

/// Recording `a` and then `b` records `a + b`.
pub proof fn lemma_recording_twice<S>(st: DroneState<S>, a: Seq<ActionModel>, b: Seq<ActionModel>)
    ensures
        st.recording(a).recording(b) == st.recording(a + b),
{
    assert(st.actions + a + b =~= st.actions + (a + b));
}

/// What is recorded to get packet `p` to node `to`: a send where `to` is a
/// neighbor, else a request to the controller to deliver it.
pub open spec fn deliver_actions<S>(
    st: DroneState<S>,
    to: NodeId,
    p: PacketModel,
    report: bool,
) -> Seq<ActionModel> {
    if st.is_neighbor(to) {
        seq![ActionModel::Send { to, packet: p, report }]
    } else {
        seq![ActionModel::Emit(EventModel::Shortcut(p))]
    }
}

pub open spec fn actions_view(v: Seq<Action>) -> Seq<ActionModel> {
    v.map_values(|a: Action| a@)
}

impl<S> View for RustBustersDrone<S> {
    type V = DroneState<S>;

    closed spec fn view(&self) -> DroneState<S> {
        DroneState {
            id: self.id,
            pdr: self.pdr.percent,
            neighbors: self.packet_send@,
            seen_floods: Set::new(|k: (u64, NodeId)| self.received_floods@.contains(flood_key(k))),
            optimized_routing: self.optimized_routing,
            running: self.running,
            hunt_mode: self.hunt_mode,
            actions: actions_view(self.outbox@),
        }
    }
}

/// The number under which flood key `(flood_id, initiator_id)` is stored:
/// distinct keys get distinct numbers.
pub open spec fn flood_key(k: (u64, NodeId)) -> u128 {
    (k.0 as int * 256 + k.1 as int) as u128
}

proof fn lemma_flood_key_injective(a: (u64, NodeId), b: (u64, NodeId))
    ensures
        flood_key(a) == flood_key(b) <==> a == b,
{
    let x = a.0 as int * 256 + a.1 as int;
    let y = b.0 as int * 256 + b.1 as int;
    assert(0 <= x < 0x1_0000_0000_0000_0000_00) by (nonlinear_arith)
        requires
            x == a.0 as int * 256 + a.1 as int,
            0 <= a.0 <= 0xffff_ffff_ffff_ffff,
            0 <= a.1 <= 255,
    ;
    assert(0 <= y < 0x1_0000_0000_0000_0000_00) by (nonlinear_arith)
        requires
            y == b.0 as int * 256 + b.1 as int,
            0 <= b.0 <= 0xffff_ffff_ffff_ffff,
            0 <= b.1 <= 255,
    ;
    if x == y {
        assert(a.0 == b.0 && a.1 == b.1) by (nonlinear_arith)
            requires
                x == y,
                x == a.0 as int * 256 + a.1 as int,
                y == b.0 as int * 256 + b.1 as int,
                0 <= a.1 <= 255,
                0 <= b.1 <= 255,
        ;
    }
}

fn packed_flood_key(flood_id: u64, initiator_id: NodeId) -> (r: u128)
    ensures
        r == flood_key((flood_id, initiator_id)),
{
    assert(flood_id as u128 * 256 + initiator_id as u128 <= 0xffff_ffff_ffff_ffff_ff) by (
    nonlinear_arith)
        requires
            flood_id <= 0xffff_ffff_ffff_ffff,
            initiator_id <= 255,
    ;
    flood_id as u128 * 256 + initiator_id as u128
}

/// A packet drop rate, in percent.
struct DropRate {
    percent: u8,
}

impl DropRate {
    #[verifier::type_invariant]
    spec fn is_percentage(&self) -> bool {
        self.percent <= 100
    }

    /// `p`, or 100 where `p` is above 100.
    fn clamped(p: u8) -> (r: DropRate)
        ensures
            r.percent == if p > 100 { 100 } else { p },
    {
        DropRate { percent: if p > 100 { 100 } else { p } }
    }

    fn get(&self) -> (r: u8)
        ensures
            r == self.percent,
            r <= 100,
    {
        proof {
            use_type_invariant(self);
        }
        self.percent
    }
}

impl<S> RustBustersDrone<S> {
    /// A running drone with the given neighbors, no flood seen, no action
    /// pending and both policies off; a drop rate above 100 counts as 100.
    pub fn new(id: NodeId, packet_send: HashMap<NodeId, S>, pdr: u8) -> (r: Self)
        ensures
            r@ == (DroneState {
                id,
                pdr: if pdr > 100 { 100 } else { pdr },
                neighbors: packet_send@,
                seen_floods: Set::<(u64, NodeId)>::empty(),
                optimized_routing: false,
                running: true,
                hunt_mode: false,
                actions: Seq::<ActionModel>::empty(),
            }),
    {
        let r = RustBustersDrone {
            id,
            pdr: DropRate::clamped(pdr),
            packet_send,
            received_floods: HashSet::new(),
            optimized_routing: false,
            running: true,
            hunt_mode: false,
            outbox: Vec::new(),
        };
        assert(r@.seen_floods =~= Set::<(u64, NodeId)>::empty());
        assert(r@.actions =~= Seq::<ActionModel>::empty());
        r
    }

    pub fn id(&self) -> (r: NodeId)
        ensures
            r == self@.id,
    {
        self.id
    }

    /// The packet drop rate, in percent: never above 100.
    pub fn pdr(&self) -> (r: u8)
        ensures
            r == self@.pdr,
            r <= 100,
    {
        self.pdr.get()
    }

    pub fn is_running(&self) -> (r: bool)
        ensures
            r == self@.running,
    {
        self.running
    }

    pub fn optimized_routing(&self) -> (r: bool)
        ensures
            r == self@.optimized_routing,
    {
        self.optimized_routing
    }

    pub fn hunt_mode(&self) -> (r: bool)
        ensures
            r == self@.hunt_mode,
    {
        self.hunt_mode
    }

    pub fn is_neighbor(&self, n: NodeId) -> (r: bool)
        ensures
            r == self@.neighbors.contains_key(n),
    {
        self.packet_send.contains_key(&n)
    }

    /// The outbound link of neighbor `n`, if `n` is a neighbor.
    pub fn sender(&self, n: NodeId) -> (r: Option<&S>)
        ensures
            match r {
                Some(s) => self@.neighbors.contains_key(n) && self@.neighbors[n] == *s,
                None => !self@.neighbors.contains_key(n),
            },
    {
        self.packet_send.get(&n)
    }

    pub fn has_seen_flood(&self, flood_id: u64, initiator_id: NodeId) -> (r: bool)
        ensures
            r == self@.seen_floods.contains((flood_id, initiator_id)),
    {
        self.received_floods.contains(&packed_flood_key(flood_id, initiator_id))
    }

    /// Hands over the pending actions, oldest first, and forgets them.
    pub fn take_actions(&mut self) -> (r: Vec<Action>)
        ensures
            actions_view(r@) == old(self)@.actions,
            final(self)@ == old(self)@.cleared(),
    {
        let mut r: Vec<Action> = Vec::new();
        std::mem::swap(&mut r, &mut self.outbox);
        assert(actions_view(self.outbox@) =~= Seq::<ActionModel>::empty());
        r
    }

    /// Records `a` after the pending actions.
    pub(crate) fn record(&mut self, a: Action)
        ensures
            final(self)@ == old(self)@.recording(seq![a@]),
    {
        self.outbox.push(a);
        assert(actions_view(self.outbox@) =~= old(self)@.actions + seq![a@]);
    }

    /// Asks for `p` to be sent to `to`, or to the controller where `to` is
    /// not a neighbor.
    pub(crate) fn deliver(&mut self, to: NodeId, p: Packet, report: bool)
        ensures
            final(self)@ == old(self)@.recording(deliver_actions(old(self)@, to, p@, report)),
    {
        if self.is_neighbor(to) {
            self.record(Action::Send { to, packet: p, report });
        } else {
            self.record(Action::Emit(DroneEvent::ControllerShortcut(p)));
        }
    }

    /// Turns the optimizing of return routes on or off.
    pub fn set_optimized_routing(&mut self, optimized_routing: bool)
        ensures
            final(self)@ == (DroneState { optimized_routing, ..old(self)@ }),
    {
        self.optimized_routing = optimized_routing;
    }

    /// Turns hunt mode on or off.
    pub fn set_hunt_mode(&mut self, hunt_mode: bool)
        ensures
            final(self)@ == (DroneState { hunt_mode, ..old(self)@ }),
    {
        self.hunt_mode = hunt_mode;
    }

    /// Remembers that the flood request with key `key` was seen.
    pub fn remember_flood(&mut self, key: (u64, NodeId))
        ensures
            final(self)@ == old(self)@.seeing(key),
    {
        self.received_floods.insert(packed_flood_key(key.0, key.1));
        assert(self@.seen_floods =~= old(self)@.seen_floods.insert(key)) by {
            assert forall|k: (u64, NodeId)|
                #[trigger] self.received_floods@.contains(flood_key(k)) == (old(
                    self,
                ).received_floods@.contains(flood_key(k)) || k == key) by {
                lemma_flood_key_injective(k, key);
            }
        }
    }

    pub(crate) fn crash(&mut self)
        ensures
            final(self)@ == (DroneState { running: false, ..old(self)@ }),
    {
        self.running = false;
    }

    pub(crate) fn add_neighbor(&mut self, n: NodeId, s: S)
        ensures
            final(self)@ == (DroneState { neighbors: old(self)@.neighbors.insert(n, s), ..old(self)@ }),
    {
        self.packet_send.insert(n, s);
    }

    /// Sets the drop rate to `p` percent, or 100 where `p` is above 100.
    pub(crate) fn set_pdr(&mut self, p: u8)
        ensures
            final(self)@ == (DroneState { pdr: if p > 100 { 100 } else { p }, ..old(self)@ }),
    {
        self.pdr = DropRate::clamped(p);
    }

    /// Forgets neighbor `n`.
    pub(crate) fn drop_neighbor(&mut self, n: NodeId)
        ensures
            final(self)@ == old(self)@.without(n),
    {
        self.packet_send.remove(&n);
    }
}

} // verus!
