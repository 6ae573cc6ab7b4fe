//! On-wire data model: routing tags, payloads, and the two frame shapes
//! (`Reset` for the entanglement handshake, `Entangled` for heartbeats and
//! the four-phase AIT exchange).
use vstd::prelude::*;

verus! {

/// Heartbeat / ack-ack i-state tag.
pub const TICK: u8 = 1;

/// Begin-AIT i-state tag; the frame carries the payload being transferred.
pub const TECK: u8 = 2;

/// Accept-AIT i-state tag (the receiver had a reader ready).
pub const TACK: u8 = 3;

/// Reject-AIT i-state tag (no reader ready; the sender will retry).
pub const RTECK: u8 = 4;

/// A routing tag carried by every payload; equality-only semantics,
/// derived from the 32-bit nonce of the link that minted it.
#[derive(Debug, Clone, Copy, PartialEq, Eq, Structural)]
pub struct TreeId {
    pub nonce: u32,
}

impl TreeId {
    pub fn new(nonce: u32) -> (t: TreeId)
        ensures
            t.nonce == nonce,
    {
        TreeId { nonce }
    }
}

/// Mathematical model of a payload: its routing tag and its bytes.
pub struct PayloadV {
    pub id: TreeId,
    pub data: Seq<u8>,
}

/// An opaque byte block tagged with a `TreeId`; cloneable by value,
/// no hidden sharing.
#[derive(Debug, Clone)]
pub struct Payload {
    pub id: TreeId,
    pub data: Vec<u8>,
}

impl View for Payload {
    type V = PayloadV;

    open spec fn view(&self) -> PayloadV {
        PayloadV { id: self.id, data: self.data@ }
    }
}

impl Payload {
    /// An explicit deep copy with a contract; the derived `clone` carries
    /// none in proofs.
    pub fn duplicate(&self) -> (r: Payload)
        ensures
            r@ == self@,
    {
        let data = self.data.clone();
        proof {
            assert(data@ =~= self.data@);
        }
        Payload { id: self.id, data }
    }
}

/// Mathematical model of a frame.
pub enum FrameV {
    Reset { nonce: u32 },
    Entangled { tree_id: TreeId, i_state: u8, u_state: u8, payload: Option<PayloadV> },
}

/// The on-wire unit: either a `Reset` carrying a 32-bit nonce, or an
/// `Entangled` frame carrying a tree id, an i-state tag, the echoed
/// u-state tag, and optionally a payload.
#[derive(Debug, Clone)]
pub enum Frame {
    Reset { nonce: u32 },
    Entangled { tree_id: TreeId, i_state: u8, u_state: u8, payload: Option<Payload> },
}

impl View for Frame {
    type V = FrameV;

    open spec fn view(&self) -> FrameV {
        match self {
            Frame::Reset { nonce } => FrameV::Reset { nonce: *nonce },
            Frame::Entangled { tree_id, i_state, u_state, payload } => FrameV::Entangled {
                tree_id: *tree_id,
                i_state: *i_state,
                u_state: *u_state,
                payload: match payload {
                    Some(p) => Some(p@),
                    None => None,
                },
            },
        }
    }
}

impl Frame {
    /// An explicit deep copy with a contract; the derived `clone` carries
    /// none in proofs.
    pub fn duplicate(&self) -> (r: Frame)
        ensures
            r@ == self@,
    {
        match self {
            Frame::Reset { nonce } => Frame::Reset { nonce: *nonce },
            Frame::Entangled { tree_id, i_state, u_state, payload } => Frame::Entangled {
                tree_id: *tree_id,
                i_state: *i_state,
                u_state: *u_state,
                payload: match payload {
                    Some(p) => Some(p.duplicate()),
                    None => None,
                },
            },
        }
    }

    pub fn new_reset(nonce: u32) -> (f: Frame)
        ensures
            f@ == (FrameV::Reset { nonce }),
    {
        Frame::Reset { nonce }
    }

    pub fn new_entangled(tree_id: &TreeId, i_state: u8, u_state: u8) -> (f: Frame)
        ensures
            f@ == (FrameV::Entangled { tree_id: *tree_id, i_state, u_state, payload: None }),
    {
        Frame::Entangled { tree_id: *tree_id, i_state, u_state, payload: None }
    }

    pub fn is_reset(&self) -> (b: bool)
        ensures
            b == (self@ is Reset),
    {
        match self {
            Frame::Reset { .. } => true,
            Frame::Entangled { .. } => false,
        }
    }

    pub fn is_entangled(&self) -> (b: bool)
        ensures
            b == (self@ is Entangled),
    {
        match self {
            Frame::Reset { .. } => false,
            Frame::Entangled { .. } => true,
        }
    }

    pub fn get_nonce(&self) -> (n: u32)
        requires
            self@ is Reset,
        ensures
            self@ == (FrameV::Reset { nonce: n }),
    {
        match self {
            Frame::Reset { nonce } => *nonce,
            Frame::Entangled { .. } => vstd::pervasive::unreached(),
        }
    }

    pub fn get_i_state(&self) -> (i: u8)
        requires
            self@ is Entangled,
        ensures
            self@ matches FrameV::Entangled { i_state, .. } && i_state == i,
    {
        match self {
            Frame::Reset { .. } => vstd::pervasive::unreached(),
            Frame::Entangled { i_state, .. } => *i_state,
        }
    }

    pub fn get_payload(&self) -> (p: Payload)
        requires
            self@ matches FrameV::Entangled { payload: Some(..), .. },
        ensures
            self@ matches FrameV::Entangled { payload, .. } && payload == Some(p@),
    {
        match self {
            Frame::Entangled { payload: Some(p), .. } => p.duplicate(),
            _ => vstd::pervasive::unreached(),
        }
    }

    pub fn set_payload(&mut self, p: &Payload)
        requires
            old(self)@ is Entangled,
        ensures
            old(self)@ matches FrameV::Entangled { tree_id, i_state, u_state, .. } && final(self)@
                == (FrameV::Entangled { tree_id, i_state, u_state, payload: Some(p@) }),
    {
        match self {
            Frame::Entangled { payload, .. } => {
                *payload = Some(p.duplicate());
            },
            Frame::Reset { .. } => {
                proof {
                    assert(false);
                }
            },
        }
    }
}

} // verus!
