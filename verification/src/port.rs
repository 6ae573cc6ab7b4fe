//! The Port: half-duplex mediator between a Link and a pair of host
//! channels. `tx` carries inbound payloads up to the host; `rx` carries
//! host payloads down toward the Link. The port adds no protocol state;
//! back-pressure is a bounded self-retry (it re-posts the same event to
//! itself so other events may interleave).
use crate::cap::PortCap;
use crate::frame::{Payload, PayloadV};
use crate::link::{LinkEvent, LinkEventV, LinkState};
use crossbeam::channel::{Receiver, Sender};
use vstd::prelude::*;

verus! {

#[verifier::external_type_specification]
#[verifier::external_body]
#[verifier::reject_recursive_types(T)]
pub struct ExSender<T>(Sender<T>);

#[verifier::external_type_specification]
#[verifier::external_body]
#[verifier::reject_recursive_types(T)]
pub struct ExReceiver<T>(Receiver<T>);

/// Events a Port accepts, from its own creator and from the Link.
#[derive(Debug, Clone)]
pub enum PortEvent {
    /// Latch the self-capability exactly once.
    Init(PortCap),
    /// Observational status report from the Link.
    LinkStatus(LinkState, isize),
    /// Delivery of one inbound payload from the Link.
    LinkToPortWrite(Payload),
    /// The Link reports space for one outbound payload.
    LinkToPortRead,
}

/// Mathematical model of a [`PortEvent`].
pub enum PortEventV {
    Init(PortCap),
    LinkStatus(LinkState, isize),
    LinkToPortWrite(PayloadV),
    LinkToPortRead,
}

impl View for PortEvent {
    type V = PortEventV;

    open spec fn view(&self) -> PortEventV {
        match self {
            PortEvent::Init(c) => PortEventV::Init(*c),
            PortEvent::LinkStatus(s, b) => PortEventV::LinkStatus(*s, *b),
            PortEvent::LinkToPortWrite(p) => PortEventV::LinkToPortWrite(p@),
            PortEvent::LinkToPortRead => PortEventV::LinkToPortRead,
        }
    }
}

impl PortEvent {
    pub fn new_init(port: &PortCap) -> (e: PortEvent)
        ensures
            e@ == PortEventV::Init(*port),
    {
        PortEvent::Init(*port)
    }

    pub fn new_link_status(state: &LinkState, balance: &isize) -> (e: PortEvent)
        ensures
            e@ == PortEventV::LinkStatus(*state, *balance),
    {
        PortEvent::LinkStatus(*state, *balance)
    }

    pub fn new_link_to_port_write(payload: &Payload) -> (e: PortEvent)
        ensures
            e@ == PortEventV::LinkToPortWrite(payload@),
    {
        PortEvent::LinkToPortWrite(payload.duplicate())
    }

    pub fn new_link_to_port_read() -> (e: PortEvent)
        ensures
            e@ == PortEventV::LinkToPortRead,
    {
        PortEvent::LinkToPortRead
    }
}

/// The pair (link state, AIT balance) that a Link reports upward.
#[derive(Debug, Clone, Copy, PartialEq, Eq, Structural)]
pub struct PortState {
    pub link_state: LinkState,
    pub ait_balance: isize,
}

/// What one Port step sends: at most one message to the Link, at most
/// one re-posted event to itself, at most one payload pushed into the
/// outbound host channel (`to_host` records that push), and at most one
/// status report forwarded upward to the Hub subscriber (`to_hub`).
pub struct PortEffects {
    pub to_link: Option<LinkEvent>,
    pub to_self: Option<PortEvent>,
    pub to_host: Option<Payload>,
    pub to_hub: Option<PortState>,
}

/// Mathematical model of [`PortEffects`].
pub struct PortEffectsV {
    pub to_link: Option<LinkEventV>,
    pub to_self: Option<PortEventV>,
    pub to_host: Option<PayloadV>,
    pub to_hub: Option<PortState>,
}

impl View for PortEffects {
    type V = PortEffectsV;

    open spec fn view(&self) -> PortEffectsV {
        PortEffectsV {
            to_link: match &self.to_link {
                Some(e) => Some(e@),
                None => None,
            },
            to_self: match &self.to_self {
                Some(e) => Some(e@),
                None => None,
            },
            to_host: match &self.to_host {
                Some(p) => Some(p@),
                None => None,
            },
            to_hub: self.to_hub,
        }
    }
}

pub open spec fn no_port_effects() -> PortEffectsV {
    PortEffectsV { to_link: None, to_self: None, to_host: None, to_hub: None }
}

/// Relies on crossbeam_channel::Sender::is_empty: reports whether the
/// channel held no messages at some instant during the call. The host
/// endpoint runs concurrently, so nothing is promised of the result.
#[verifier::external_body]
fn outbound_is_empty(tx: &Sender<Payload>) -> bool {
    tx.is_empty()
}

/// Relies on crossbeam_channel::Sender::send: on an unbounded channel it
/// delivers the message unless the receiving side has disconnected; the
/// result reports whether delivery happened.
#[verifier::external_body]
fn outbound_send(tx: &Sender<Payload>, payload: Payload) -> bool {
    tx.send(payload).is_ok()
}

/// Relies on crossbeam_channel::Receiver::try_recv: returns a pending
/// message if one was available, and `None` when the channel was empty
/// or disconnected. Which of these happens depends on the host endpoint.
#[verifier::external_body]
fn inbound_try_recv(rx: &Receiver<Payload>) -> Option<Payload> {
    rx.try_recv().ok()
}

/// The mediator between one Link and the host channel pair.
pub struct Port {
    pub myself: Option<PortCap>,
    pub tx: Sender<Payload>,
    pub rx: Receiver<Payload>,
}

impl Port {
    /// A port starts with no self-capability (`Init` latches it) and
    /// holds exactly the given host channel endpoints.
    pub fn create(tx: Sender<Payload>, rx: Receiver<Payload>) -> (p: Port)
        ensures
            p.myself is None,
            p.tx == tx,
            p.rx == rx,
    {
        Port { myself: None, tx, rx }
    }

    /// Decision core for a delivery from the Link, verified for every
    /// possible observation of the outbound host channel: push and credit
    /// the Link only when the channel was seen empty, otherwise re-post
    /// the same event. In particular no payload is ever pushed onto a
    /// non-empty channel, so the single producer keeps it at one unread
    /// payload at most.
    pub fn decide_inbound(me: PortCap, outbound_empty: bool, payload: Payload) -> (eff:
        PortEffects)
        ensures
            outbound_empty ==> eff@ == (PortEffectsV {
                to_link: Some(LinkEventV::Read(me)),
                to_self: None,
                to_host: Some(payload@),
                to_hub: None,
            }),
            !outbound_empty ==> eff@ == (PortEffectsV {
                to_link: None,
                to_self: Some(PortEventV::LinkToPortWrite(payload@)),
                to_host: None,
                to_hub: None,
            }),
    {
        if outbound_empty {
            PortEffects {
                to_link: Some(LinkEvent::Read(me)),
                to_self: None,
                to_host: Some(payload),
                to_hub: None,
            }
        } else {
            PortEffects {
                to_link: None,
                to_self: Some(PortEvent::LinkToPortWrite(payload)),
                to_host: None,
                to_hub: None,
            }
        }
    }

    /// Decision core for a Link credit, verified for every possible
    /// observation of the inbound host channel: forward a fetched payload
    /// as a Link write, otherwise re-post the same event.
    pub fn decide_outbound(me: PortCap, fetched: Option<Payload>) -> (eff: PortEffects)
        ensures
            fetched matches Some(p) ==> eff@ == (PortEffectsV {
                to_link: Some(LinkEventV::Write(me, p@)),
                to_self: None,
                to_host: None,
                to_hub: None,
            }),
            fetched is None ==> eff@ == (PortEffectsV {
                to_link: None,
                to_self: Some(PortEventV::LinkToPortRead),
                to_host: None,
                to_hub: None,
            }),
    {
        match fetched {
            Some(p) => PortEffects {
                to_link: Some(LinkEvent::Write(me, p)),
                to_self: None,
                to_host: None,
                to_hub: None,
            },
            None => PortEffects {
                to_link: None,
                to_self: Some(PortEvent::LinkToPortRead),
                to_host: None,
                to_hub: None,
            },
        }
    }

    /// Process one event to completion. A `LinkStatus` is forwarded
    /// upward as a `PortState` report for the Hub subscriber. The channel
    /// observations are made through the trusted crossbeam wrappers;
    /// whatever they return, the resulting effects are exactly one of the
    /// decision outcomes, and the payload recorded in `to_host` is the
    /// one pushed.
    pub fn on_event(&mut self, event: PortEvent) -> (eff: PortEffects)
        requires
            !(old(self).myself is Some && event@ is Init),
        ensures
            final(self).tx == old(self).tx,
            final(self).rx == old(self).rx,
            final(self).myself == (match event@ {
                PortEventV::Init(me) => Some(me),
                _ => old(self).myself,
            }),
            (match event@ {
                PortEventV::Init(_) => eff@ == no_port_effects(),
                PortEventV::LinkStatus(s, b) => eff@ == (PortEffectsV {
                    to_link: None,
                    to_self: None,
                    to_host: None,
                    to_hub: Some(PortState { link_state: s, ait_balance: b }),
                }),
                PortEventV::LinkToPortWrite(p) => match old(self).myself {
                    None => eff@ == no_port_effects(),
                    Some(me) => eff@ == (PortEffectsV {
                        to_link: Some(LinkEventV::Read(me)),
                        to_self: None,
                        to_host: Some(p),
                        to_hub: None,
                    }) || eff@ == (PortEffectsV {
                        to_link: None,
                        to_self: Some(PortEventV::LinkToPortWrite(p)),
                        to_host: None,
                        to_hub: None,
                    }),
                },
                PortEventV::LinkToPortRead => match old(self).myself {
                    None => eff@ == no_port_effects(),
                    Some(me) => (exists|pv: PayloadV|
                        eff@ == (PortEffectsV {
                            to_link: Some(LinkEventV::Write(me, pv)),
                            to_self: None,
                            to_host: None,
                            to_hub: None,
                        })) || eff@ == (PortEffectsV {
                        to_link: None,
                        to_self: Some(PortEventV::LinkToPortRead),
                        to_host: None,
                        to_hub: None,
                    }),
                },
            }),
    {
        match event {
            PortEvent::Init(me) => {
                self.myself = Some(me);
                PortEffects { to_link: None, to_self: None, to_host: None, to_hub: None }
            },
            PortEvent::LinkStatus(state, balance) => {
                // forwarded semantically as a PortState to the Hub subscriber
                PortEffects {
                    to_link: None,
                    to_self: None,
                    to_host: None,
                    to_hub: Some(PortState { link_state: state, ait_balance: balance }),
                }
            },
            PortEvent::LinkToPortWrite(payload) => match self.myself {
                Some(me) => {
                    let empty = outbound_is_empty(&self.tx);
                    let eff = Port::decide_inbound(me, empty, payload);
                    if let Some(q) = &eff.to_host {
                        // delivery fails only if the host dropped its endpoint
                        let _delivered = outbound_send(&self.tx, q.duplicate());
                    }
                    eff
                },
                None => PortEffects { to_link: None, to_self: None, to_host: None, to_hub: None },
            },
            PortEvent::LinkToPortRead => match self.myself {
                Some(me) => {
                    let fetched = inbound_try_recv(&self.rx);
                    Port::decide_outbound(me, fetched)
                },
                None => PortEffects { to_link: None, to_self: None, to_host: None, to_hub: None },
            },
        }
    }
}

} // verus!
