//! A packet-forwarding drone for a source-routed mesh overlay.
//!
//! The drone's decisions are made by [`RustBustersDrone`], a state machine
//! that records what it wants done (a packet put on a neighbor link, an event
//! handed to the controller) as a list of [`Action`]s. Whoever runs the drone
//! performs those actions and reports each failed link back through
//! [`RustBustersDrone::link_failed`].
pub mod packet;
pub mod route;
pub mod drone;
pub mod forward_packet;
pub mod send_nack;
pub mod handle_flood;
pub mod handle_command;
pub mod hunt;

pub use drone::{IsRustBustersDrone, RustBustersDrone};
pub use hunt::PACKET_CONST;
pub use packet::{
    Ack, Action, DroneCommand, DroneEvent, FloodRequest, FloodResponse, Fragment, Nack, NackType,
    NodeId, NodeType, Packet, PacketType, SourceRoutingHeader, FRAGMENT_DSIZE,
};
