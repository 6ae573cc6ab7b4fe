//! Data-plane core of an experimental link-layer networking fabric.
//!
//! Three coupled state machines make up the core: the [`link::Link`]
//! protocol engine on the wire (entanglement handshake plus the
//! credit-balanced four-phase AIT exchange), the [`port::Port`] mediator
//! between a Link and a pair of host channels, and the [`hub::Hub`]
//! rendezvous router multiplexing a fixed set of Ports and one Cell.
//!
//! The actor runtime, the wire, the cell, and the liveness timer are
//! external collaborators: every handler here is a function from state
//! and event to new state plus the messages it would send.

pub mod cap;
pub mod frame;
pub mod hub;
pub mod link;
pub mod port;
