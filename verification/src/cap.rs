//! Capability handles. The actor runtime that delivers events is an
//! external collaborator; within the core a capability is a plain,
//! equality-comparable identifier that names a destination. Handlers
//! return the messages they would send, addressed by these handles.
use vstd::prelude::*;

verus! {

/// A send-only handle naming one Port.
#[derive(Debug, Clone, Copy, PartialEq, Eq, Structural)]
pub struct PortCap {
    pub id: u32,
}

/// A send-only handle naming the Cell above the Hub.
#[derive(Debug, Clone, Copy, PartialEq, Eq, Structural)]
pub struct CellCap {
    pub id: u32,
}

/// A send-only handle naming the Hub.
#[derive(Debug, Clone, Copy, PartialEq, Eq, Structural)]
pub struct HubCap {
    pub id: u32,
}

} // verus!
