//! Packet-forwarding engine of a drone in a source-routed overlay network.
//!
//! The library holds the drone's decisions: hop validation, forwarding,
//! NACK synthesis, flood deduplication and response synthesis, and the
//! command handling that changes the drone's neighbourhood and life-cycle
//! state. Each decision returns the list of effects (sends to neighbours and
//! events for the simulation controller) that the caller performs, in order.
//!
//! `model` states the protocol over mathematical values, `drone` implements
//! it, and `laws` proves the protocol's general properties.
use vstd::prelude::*;

pub mod packet;
pub mod routing;
pub mod event;
pub mod model;
pub mod drone;
pub mod laws;

pub use drone::DroneCore;
pub use event::{DroneEvent, Effect};
pub use model::{Command, ConfigError, DroneDebugOption, DroneState};
pub use packet::{
    Ack, FloodRequest, FloodResponse, Fragment, Nack, NackType, NodeId, NodeType, Packet,
    PacketType, SourceRoutingHeader, FRAGMENT_DSIZE,
};

verus! {

} // verus!
