//! The Link protocol state machine: per-wire entanglement handshake and
//! the credit-balanced four-phase AIT exchange (TECK -> TACK | RTECK ->
//! TICK). A handler returns the frame and the port message it would send;
//! delivering them is the external runtime's concern.
use crate::cap::PortCap;
use crate::frame::{Frame, FrameV, Payload, PayloadV, TreeId, RTECK, TACK, TECK, TICK};
use crate::port::{PortEvent, PortEventV};
use rand::Rng;
use vstd::prelude::*;

verus! {

/// Events a Link accepts, from the Port, the Pollster, and the Wire.
#[derive(Debug, Clone)]
pub enum LinkEvent {
    /// Inbound frame received from the wire.
    Frame(Frame),
    /// Enable the link; transmit Reset and report status.
    Start(PortCap),
    /// Report status; demote Live to Run.
    Poll(PortCap),
    /// Disable the link; report status.
    Stop(PortCap),
    /// The port is ready to receive one inbound payload.
    Read(PortCap),
    /// The port offers one payload to transmit.
    Write(PortCap, Payload),
}

/// Mathematical model of a [`LinkEvent`].
pub enum LinkEventV {
    Frame(FrameV),
    Start(PortCap),
    Poll(PortCap),
    Stop(PortCap),
    Read(PortCap),
    Write(PortCap, PayloadV),
}

impl View for LinkEvent {
    type V = LinkEventV;

    open spec fn view(&self) -> LinkEventV {
        match self {
            LinkEvent::Frame(f) => LinkEventV::Frame(f@),
            LinkEvent::Start(c) => LinkEventV::Start(*c),
            LinkEvent::Poll(c) => LinkEventV::Poll(*c),
            LinkEvent::Stop(c) => LinkEventV::Stop(*c),
            LinkEvent::Read(c) => LinkEventV::Read(*c),
            LinkEvent::Write(c, p) => LinkEventV::Write(*c, p@),
        }
    }
}

impl LinkEvent {
    pub fn new_frame(frame: &Frame) -> (e: LinkEvent)
        ensures
            e@ == LinkEventV::Frame(frame@),
    {
        LinkEvent::Frame(frame.duplicate())
    }

    pub fn new_start(port: &PortCap) -> (e: LinkEvent)
        ensures
            e@ == LinkEventV::Start(*port),
    {
        LinkEvent::Start(*port)
    }

    pub fn new_poll(port: &PortCap) -> (e: LinkEvent)
        ensures
            e@ == LinkEventV::Poll(*port),
    {
        LinkEvent::Poll(*port)
    }

    pub fn new_stop(port: &PortCap) -> (e: LinkEvent)
        ensures
            e@ == LinkEventV::Stop(*port),
    {
        LinkEvent::Stop(*port)
    }

    pub fn new_read(port: &PortCap) -> (e: LinkEvent)
        ensures
            e@ == LinkEventV::Read(*port),
    {
        LinkEvent::Read(*port)
    }

    pub fn new_write(port: &PortCap, payload: &Payload) -> (e: LinkEvent)
        ensures
            e@ == LinkEventV::Write(*port, payload@),
    {
        LinkEvent::Write(*port, payload.duplicate())
    }
}

/// Link lifecycle state.
#[derive(Debug, Clone, Copy, PartialEq, Eq, Structural)]
pub enum LinkState {
    /// Link is disabled; inbound frames are dropped.
    Stop,
    /// Reset sent, ready to become entangled.
    Init,
    /// Entangled, but quiet since the last poll.
    Run,
    /// Entangled with recent activity.
    Live,
}

/// What one Link step sends: at most one frame to the wire and at most
/// one message to a port.
pub struct LinkEffects {
    pub to_wire: Option<Frame>,
    pub to_port: Option<(PortCap, PortEvent)>,
}

/// Mathematical model of [`LinkEffects`].
pub struct LinkEffectsV {
    pub to_wire: Option<FrameV>,
    pub to_port: Option<(PortCap, PortEventV)>,
}

impl View for LinkEffects {
    type V = LinkEffectsV;

    open spec fn view(&self) -> LinkEffectsV {
        LinkEffectsV {
            to_wire: match &self.to_wire {
                Some(f) => Some(f@),
                None => None,
            },
            to_port: match &self.to_port {
                Some((c, e)) => Some((*c, e@)),
                None => None,
            },
        }
    }
}

/// Mathematical model of a [`Link`].
pub struct LinkV {
    pub nonce: u32,
    pub state: LinkState,
    pub balance: isize,
    pub reader: Option<PortCap>,
    pub inbound: Option<PayloadV>,
    pub writer: Option<PortCap>,
    pub outbound: Option<PayloadV>,
}

impl LinkV {
    /// Single-occupancy slots and the credit rule: the balance is one of
    /// {-1, 0, +1}; a surplus stages exactly one inbound payload for the
    /// waiting reader, a deficit has exactly one writer with its staged
    /// outbound payload.
    pub open spec fn inv(self) -> bool {
        &&& -1 <= self.balance <= 1
        &&& self.balance == 1 ==> self.reader is Some && self.inbound is Some
        &&& self.balance == -1 ==> self.writer is Some && self.outbound is Some
        &&& self.inbound is Some ==> self.balance == 1
        &&& (self.writer is Some <==> self.outbound is Some)
    }
}

/// The per-wire protocol engine. It owns a local nonce and the four
/// single-occupancy slots of the AIT exchange.
pub struct Link {
    pub nonce: u32,
    pub state: LinkState,
    pub balance: isize,
    pub reader: Option<PortCap>,
    pub inbound: Option<Payload>,
    pub writer: Option<PortCap>,
    pub outbound: Option<Payload>,
}

impl View for Link {
    type V = LinkV;

    open spec fn view(&self) -> LinkV {
        LinkV {
            nonce: self.nonce,
            state: self.state,
            balance: self.balance,
            reader: self.reader,
            inbound: match &self.inbound {
                Some(p) => Some(p@),
                None => None,
            },
            writer: self.writer,
            outbound: match &self.outbound {
                Some(p) => Some(p@),
                None => None,
            },
        }
    }
}

pub open spec fn no_link_effects() -> LinkEffectsV {
    LinkEffectsV { to_wire: None, to_port: None }
}

pub open spec fn wire_only(f: FrameV) -> LinkEffectsV {
    LinkEffectsV { to_wire: Some(f), to_port: None }
}

/// Which frames are protocol-consistent in a given state. Anything else
/// is a fatal protocol violation (a buggy peer or a corrupted wire) and
/// is excluded from the handler's precondition.
pub open spec fn frame_admissible(l: LinkV, f: FrameV) -> bool {
    match f {
        FrameV::Reset { .. } => true,
        FrameV::Entangled { i_state, payload, .. } => if i_state == TICK {
            l.balance == 0 || l.balance == 1
        } else if i_state == TECK {
            l.balance == 0 && (l.reader is Some ==> payload is Some)
        } else if i_state == TACK {
            l.balance == -1
        } else if i_state == RTECK {
            l.balance == -1
        } else {
            false
        },
    }
}

/// Which events a Link accepts without a fatal error: frames must be
/// protocol-consistent unless the link is stopped (then they are
/// dropped), and the reader and writer slots are single-occupancy.
pub open spec fn link_event_admissible(l: LinkV, ev: LinkEventV) -> bool {
    match ev {
        LinkEventV::Frame(f) => l.state == LinkState::Stop || frame_admissible(l, f),
        LinkEventV::Read(_) => l.reader is None,
        LinkEventV::Write(_, _) => l.writer is None,
        _ => true,
    }
}

/// One step of the entangled exchange, dispatching on the received
/// i-state tag. `fpay` is the payload carried by the received frame.
pub open spec fn link_entangled_step(pre: LinkV, i: u8, fpay: Option<PayloadV>, tid: TreeId) -> (
    LinkV,
    LinkEffectsV,
) {
    if i == TICK {
        let (mid, deliver) = if pre.balance == 1 {
            (
                LinkV { state: LinkState::Live, balance: 0, reader: None, inbound: None, ..pre },
                match (pre.reader, pre.inbound) {
                    (Some(r), Some(pl)) => Some((r, PortEventV::LinkToPortWrite(pl))),
                    _ => None,  // excluded by the invariant
                },
            )
        } else {
            (LinkV { state: LinkState::Live, ..pre }, None)
        };
        match pre.outbound {
            None => (
                mid,
                LinkEffectsV {
                    to_wire: Some(
                        FrameV::Entangled { tree_id: tid, i_state: TICK, u_state: i, payload: None },
                    ),
                    to_port: deliver,
                },
            ),
            Some(pl) => (
                LinkV { balance: -1 as isize, ..mid },
                LinkEffectsV {
                    to_wire: Some(
                        FrameV::Entangled {
                            tree_id: tid,
                            i_state: TECK,
                            u_state: i,
                            payload: Some(pl),
                        },
                    ),
                    to_port: deliver,
                },
            ),
        }
    } else if i == TECK {
        match pre.reader {
            Some(_) => match fpay {
                Some(pl) => (
                    LinkV { state: LinkState::Live, balance: 1, inbound: Some(pl), ..pre },
                    wire_only(
                        FrameV::Entangled { tree_id: tid, i_state: TACK, u_state: i, payload: None },
                    ),
                ),
                None => (LinkV { state: LinkState::Live, ..pre }, no_link_effects()),  // excluded
            },
            None => (
                LinkV { state: LinkState::Live, ..pre },
                wire_only(
                    FrameV::Entangled { tree_id: tid, i_state: RTECK, u_state: i, payload: None },
                ),
            ),
        }
    } else if i == TACK {
        match pre.writer {
            Some(w) => (
                LinkV { state: LinkState::Live, balance: 0, writer: None, outbound: None, ..pre },
                LinkEffectsV {
                    to_wire: Some(
                        FrameV::Entangled { tree_id: tid, i_state: TICK, u_state: i, payload: None },
                    ),
                    to_port: Some((w, PortEventV::LinkToPortRead)),
                },
            ),
            None => (LinkV { state: LinkState::Live, ..pre }, no_link_effects()),  // excluded
        }
    } else if i == RTECK {
        (
            LinkV { state: LinkState::Live, balance: 0, ..pre },
            wire_only(FrameV::Entangled { tree_id: tid, i_state: TICK, u_state: i, payload: None }),
        )
    } else {
        (LinkV { state: LinkState::Live, ..pre }, no_link_effects())  // excluded
    }
}

/// One step on an inbound frame. While stopped, every frame is dropped.
/// On Reset the larger nonce drives entanglement; equal nonces collide
/// and re-roll to `fresh`.
pub open spec fn link_frame_step(pre: LinkV, f: FrameV, fresh: u32) -> (LinkV, LinkEffectsV) {
    let tid = TreeId { nonce: pre.nonce };
    if pre.state == LinkState::Stop {
        (pre, no_link_effects())
    } else {
        match f {
            FrameV::Reset { nonce } => if pre.nonce < nonce {
                (LinkV { state: LinkState::Init, ..pre }, no_link_effects())
            } else if pre.nonce > nonce {
                (
                    LinkV { state: LinkState::Init, ..pre },
                    wire_only(
                        FrameV::Entangled {
                            tree_id: tid,
                            i_state: TICK,
                            u_state: TICK,
                            payload: None,
                        },
                    ),
                )
            } else {
                (
                    LinkV { state: LinkState::Init, nonce: fresh, ..pre },
                    wire_only(FrameV::Reset { nonce: fresh }),
                )
            },
            FrameV::Entangled { i_state, payload, .. } => link_entangled_step(
                pre,
                i_state,
                payload,
                tid,
            ),
        }
    }
}

/// The complete transition function of the Link: next state and emitted
/// messages for each event. `fresh` is the nonce drawn on a Reset
/// collision; every other transition ignores it.
pub open spec fn link_step(pre: LinkV, ev: LinkEventV, fresh: u32) -> (LinkV, LinkEffectsV) {
    match ev {
        LinkEventV::Frame(f) => link_frame_step(pre, f, fresh),
        LinkEventV::Start(cust) => (
            LinkV { state: LinkState::Init, ..pre },
            LinkEffectsV {
                to_wire: Some(FrameV::Reset { nonce: pre.nonce }),
                to_port: Some((cust, PortEventV::LinkStatus(LinkState::Init, pre.balance))),
            },
        ),
        LinkEventV::Poll(cust) => (
            LinkV {
                state: if pre.state == LinkState::Live {
                    LinkState::Run
                } else {
                    pre.state
                },
                ..pre
            },
            LinkEffectsV {
                to_wire: None,
                to_port: Some((cust, PortEventV::LinkStatus(pre.state, pre.balance))),
            },
        ),
        LinkEventV::Stop(cust) => (
            LinkV { state: LinkState::Stop, ..pre },
            LinkEffectsV {
                to_wire: None,
                to_port: Some((cust, PortEventV::LinkStatus(LinkState::Stop, pre.balance))),
            },
        ),
        LinkEventV::Read(cust) => (LinkV { reader: Some(cust), ..pre }, no_link_effects()),
        LinkEventV::Write(cust, p) => (
            LinkV { writer: Some(cust), outbound: Some(p), ..pre },
            no_link_effects(),
        ),
    }
}

/// Relies on rand::thread_rng / Rng::gen to draw a fresh random 32-bit
/// nonce for collision resolution. Nothing is promised of the value.
#[verifier::external_body]
fn fresh_nonce() -> u32 {
    rand::thread_rng().gen()
}

impl Link {
    /// A link starts disabled, with zero credit and all four slots empty.
    pub fn create(nonce: u32) -> (l: Link)
        ensures
            l@ == (LinkV {
                nonce,
                state: LinkState::Stop,
                balance: 0,
                reader: None,
                inbound: None,
                writer: None,
                outbound: None,
            }),
    {
        Link {
            nonce,
            state: LinkState::Stop,
            balance: 0,
            reader: None,
            inbound: None,
            writer: None,
            outbound: None,
        }
    }

    /// Process one event to completion and return the messages to send.
    /// The step is exactly [`link_step`]; on a Reset collision the drawn
    /// nonce is exposed as the new `nonce`.
    pub fn on_event(&mut self, event: LinkEvent) -> (eff: LinkEffects)
        requires
            old(self)@.inv(),
            link_event_admissible(old(self)@, event@),
        ensures
            final(self)@.inv(),
            final(self)@ == link_step(old(self)@, event@, final(self).nonce).0,
            eff@ == link_step(old(self)@, event@, final(self).nonce).1,
    {
        match event {
            LinkEvent::Frame(frame) => {
                let tree_id = TreeId::new(self.nonce);
                if self.state == LinkState::Stop {
                    LinkEffects { to_wire: None, to_port: None }
                } else {
                    match frame {
                        Frame::Reset { nonce } => {
                            self.state = LinkState::Init;
                            if self.nonce < nonce {
                                // the peer with the larger nonce drives
                                LinkEffects { to_wire: None, to_port: None }
                            } else if self.nonce > nonce {
                                let reply = Frame::new_entangled(&tree_id, TICK, TICK);
                                LinkEffects { to_wire: Some(reply), to_port: None }
                            } else {
                                // collision: re-roll and resend Reset
                                let fresh = fresh_nonce();
                                self.nonce = fresh;
                                let reply = Frame::new_reset(fresh);
                                LinkEffects { to_wire: Some(reply), to_port: None }
                            }
                        },
                        Frame::Entangled { i_state, payload, .. } => {
                            self.state = LinkState::Live;
                            if i_state == TICK {
                                let mut deliver: Option<(PortCap, PortEvent)> = None;
                                if self.balance == 1 {
                                    // surplus: release the staged inbound to the reader
                                    let r = self.reader.take();
                                    let pl = self.inbound.take();
                                    match (r, pl) {
                                        (Some(rc), Some(plv)) => {
                                            deliver = Some(
                                                (rc, PortEvent::LinkToPortWrite(plv)),
                                            );
                                            self.balance = 0;
                                        },
                                        _ => {
                                            proof {
                                                assert(false);
                                            }
                                        },
                                    }
                                }
                                match &self.outbound {
                                    None => {
                                        let reply = Frame::new_entangled(&tree_id, TICK, i_state);
                                        LinkEffects { to_wire: Some(reply), to_port: deliver }
                                    },
                                    Some(pl) => {
                                        // begin AIT: offer the staged outbound
                                        let mut reply = Frame::new_entangled(
                                            &tree_id,
                                            TECK,
                                            i_state,
                                        );
                                        reply.set_payload(pl);
                                        self.balance = -1;
                                        LinkEffects { to_wire: Some(reply), to_port: deliver }
                                    },
                                }
                            } else if i_state == TECK {
                                match self.reader {
                                    Some(_) => match payload {
                                        Some(pl) => {
                                            // reader ready: stage and accept
                                            self.inbound = Some(pl);
                                            let reply = Frame::new_entangled(
                                                &tree_id,
                                                TACK,
                                                i_state,
                                            );
                                            self.balance = 1;
                                            LinkEffects { to_wire: Some(reply), to_port: None }
                                        },
                                        None => {
                                            proof {
                                                assert(false);
                                            }
                                            LinkEffects { to_wire: None, to_port: None }
                                        },
                                    },
                                    None => {
                                        // no reader ready: reject
                                        let reply = Frame::new_entangled(&tree_id, RTECK, i_state);
                                        LinkEffects { to_wire: Some(reply), to_port: None }
                                    },
                                }
                            } else if i_state == TACK {
                                let w = self.writer.take();
                                match w {
                                    Some(wc) => {
                                        // deficit resolved: acknowledge the writer
                                        self.outbound = None;
                                        self.balance = 0;
                                        let reply = Frame::new_entangled(&tree_id, TICK, i_state);
                                        LinkEffects {
                                            to_wire: Some(reply),
                                            to_port: Some((wc, PortEvent::LinkToPortRead)),
                                        }
                                    },
                                    None => {
                                        proof {
                                            assert(false);
                                        }
                                        LinkEffects { to_wire: None, to_port: None }
                                    },
                                }
                            } else if i_state == RTECK {
                                // rejection: release the deficit, keep outbound staged
                                let reply = Frame::new_entangled(&tree_id, TICK, i_state);
                                self.balance = 0;
                                LinkEffects { to_wire: Some(reply), to_port: None }
                            } else {
                                proof {
                                    assert(false);
                                }
                                LinkEffects { to_wire: None, to_port: None }
                            }
                        },
                    }
                }
            },
            LinkEvent::Start(cust) => {
                let init = Frame::new_reset(self.nonce);
                self.state = LinkState::Init;
                LinkEffects {
                    to_wire: Some(init),
                    to_port: Some((cust, PortEvent::new_link_status(&self.state, &self.balance))),
                }
            },
            LinkEvent::Poll(cust) => {
                let status = PortEvent::new_link_status(&self.state, &self.balance);
                if self.state == LinkState::Live {
                    self.state = LinkState::Run;  // clear Live status
                }
                LinkEffects { to_wire: None, to_port: Some((cust, status)) }
            },
            LinkEvent::Stop(cust) => {
                self.state = LinkState::Stop;
                LinkEffects {
                    to_wire: None,
                    to_port: Some((cust, PortEvent::new_link_status(&self.state, &self.balance))),
                }
            },
            LinkEvent::Read(cust) => {
                self.reader = Some(cust);
                LinkEffects { to_wire: None, to_port: None }
            },
            LinkEvent::Write(cust, payload) => {
                self.outbound = Some(payload);
                self.writer = Some(cust);
                LinkEffects { to_wire: None, to_port: None }
            },
        }
    }
}

pub open spec fn sends_i(eff: LinkEffectsV, i: u8) -> bool {
    eff.to_wire matches Some(FrameV::Entangled { i_state, .. }) && i_state == i
}

pub open spec fn received_i(ev: LinkEventV, i: u8) -> bool {
    ev matches LinkEventV::Frame(FrameV::Entangled { i_state, .. }) && i_state == i
}

/// Four-phase credit law: every admissible step keeps `balance` in
/// {-1, 0, +1} and preserves the slot invariant; sending TECK leaves a
/// deficit of -1; accepting a received TECK with a reader waiting leaves
/// a surplus of +1; the TICK that follows a surplus delivers to the
/// reader and restores 0 (unless the same step begins the next AIT);
/// TACK and RTECK restore 0 from -1.
pub proof fn lemma_balance_four_phase(pre: LinkV, ev: LinkEventV, fresh: u32)
    requires
        pre.inv(),
        link_event_admissible(pre, ev),
    ensures
        ({
            let post = link_step(pre, ev, fresh).0;
            let eff = link_step(pre, ev, fresh).1;
            &&& post.inv()
            &&& -1 <= post.balance <= 1
            &&& sends_i(eff, TECK) ==> post.balance == -1
            &&& pre.state != LinkState::Stop && received_i(ev, TICK) ==> (if sends_i(eff, TECK) {
                post.balance == -1
            } else {
                post.balance == 0
            })
            &&& pre.state != LinkState::Stop && received_i(ev, TECK) && pre.reader is Some
                ==> post.balance == 1 && post.inbound is Some
            &&& pre.state != LinkState::Stop && received_i(ev, TACK) ==> post.balance == 0
                && post.writer is None && post.outbound is None
            &&& pre.state != LinkState::Stop && received_i(ev, RTECK) ==> post.balance == 0
                && post.outbound == pre.outbound
        }),
{
}

} // verus!
