//! The Hub: rendezvous router between one Cell and a fixed, ordered set
//! of Ports. Per port it keeps a `PortIn` (writer, staged payload, and
//! pending routes for traffic arriving from that port) and a `PortOut`
//! (reader slot for traffic leaving toward it), plus one `CellIn` and
//! one `CellOut` for the Cell. Every slot is single-occupancy; a writer
//! is acknowledged exactly once, after its route list drains.
use crate::cap::{CellCap, HubCap, PortCap};
use crate::frame::{Payload, PayloadV};
use crate::port::PortState;
use vstd::prelude::*;

verus! {

/// Capacity hint for route lists; the port set itself is not bounded.
pub const MAX_PORTS: usize = 3;

/// A routing destination: the Cell above, or one of the ports.
#[derive(Debug, Clone, Copy, PartialEq, Eq, Structural)]
pub enum Route {
    Cell,
    Port(usize),
}

/// Reader slot for traffic toward the Cell.
#[derive(Debug, Clone, Copy, PartialEq, Eq, Structural)]
pub struct CellIn {
    pub reader: Option<CellCap>,
}

/// Reader slot for traffic toward one port.
#[derive(Debug, Clone, Copy, PartialEq, Eq, Structural)]
pub struct PortOut {
    pub reader: Option<PortCap>,
}

/// Writer slot, staged payload and pending routes for traffic arriving
/// from the Cell.
pub struct CellOut {
    pub writer: Option<CellCap>,
    pub payload: Option<Payload>,
    pub send_to: Vec<Route>,
}

/// Mathematical model of [`CellOut`].
#[verifier::ext_equal]
pub struct CellOutV {
    pub writer: Option<CellCap>,
    pub payload: Option<PayloadV>,
    pub send_to: Seq<Route>,
}

impl View for CellOut {
    type V = CellOutV;

    open spec fn view(&self) -> CellOutV {
        CellOutV {
            writer: self.writer,
            payload: match &self.payload {
                Some(p) => Some(p@),
                None => None,
            },
            send_to: self.send_to@,
        }
    }
}

/// Writer slot, staged payload and pending routes for traffic arriving
/// from one port.
pub struct PortIn {
    pub writer: Option<PortCap>,
    pub payload: Option<Payload>,
    pub send_to: Vec<Route>,
}

/// Mathematical model of [`PortIn`].
#[verifier::ext_equal]
pub struct PortInV {
    pub writer: Option<PortCap>,
    pub payload: Option<PayloadV>,
    pub send_to: Seq<Route>,
}

impl View for PortIn {
    type V = PortInV;

    open spec fn view(&self) -> PortInV {
        PortInV {
            writer: self.writer,
            payload: match &self.payload {
                Some(p) => Some(p@),
                None => None,
            },
            send_to: self.send_to@,
        }
    }
}

/// Events a Hub accepts, from its creator, the Ports, and the Cell.
#[derive(Debug, Clone)]
pub enum HubEvent {
    /// Latch the self-capability exactly once.
    Init(HubCap),
    /// Observational status report from a port.
    PortStatus(PortCap, PortState),
    /// A port offers a payload to route.
    PortToHubWrite(PortCap, Payload),
    /// A port has space for one payload.
    PortToHubRead(PortCap),
    /// The Cell offers a payload to route.
    CellToHubWrite(CellCap, Payload),
    /// The Cell has space for one payload.
    CellToHubRead(CellCap),
}

/// Mathematical model of a [`HubEvent`].
pub enum HubEventV {
    Init(HubCap),
    PortStatus(PortCap, PortState),
    PortToHubWrite(PortCap, PayloadV),
    PortToHubRead(PortCap),
    CellToHubWrite(CellCap, PayloadV),
    CellToHubRead(CellCap),
}

impl View for HubEvent {
    type V = HubEventV;

    open spec fn view(&self) -> HubEventV {
        match self {
            HubEvent::Init(h) => HubEventV::Init(*h),
            HubEvent::PortStatus(c, s) => HubEventV::PortStatus(*c, *s),
            HubEvent::PortToHubWrite(c, p) => HubEventV::PortToHubWrite(*c, p@),
            HubEvent::PortToHubRead(c) => HubEventV::PortToHubRead(*c),
            HubEvent::CellToHubWrite(c, p) => HubEventV::CellToHubWrite(*c, p@),
            HubEvent::CellToHubRead(c) => HubEventV::CellToHubRead(*c),
        }
    }
}

impl HubEvent {
    pub fn new_init(hub: &HubCap) -> (e: HubEvent)
        ensures
            e@ == HubEventV::Init(*hub),
    {
        HubEvent::Init(*hub)
    }

    pub fn new_port_status(port: &PortCap, state: &PortState) -> (e: HubEvent)
        ensures
            e@ == HubEventV::PortStatus(*port, *state),
    {
        HubEvent::PortStatus(*port, *state)
    }

    pub fn new_port_to_hub_write(port: &PortCap, payload: &Payload) -> (e: HubEvent)
        ensures
            e@ == HubEventV::PortToHubWrite(*port, payload@),
    {
        HubEvent::PortToHubWrite(*port, payload.duplicate())
    }

    pub fn new_port_to_hub_read(port: &PortCap) -> (e: HubEvent)
        ensures
            e@ == HubEventV::PortToHubRead(*port),
    {
        HubEvent::PortToHubRead(*port)
    }

    pub fn new_cell_to_hub_write(cell: &CellCap, payload: &Payload) -> (e: HubEvent)
        ensures
            e@ == HubEventV::CellToHubWrite(*cell, payload@),
    {
        HubEvent::CellToHubWrite(*cell, payload.duplicate())
    }

    pub fn new_cell_to_hub_read(cell: &CellCap) -> (e: HubEvent)
        ensures
            e@ == HubEventV::CellToHubRead(*cell),
    {
        HubEvent::CellToHubRead(*cell)
    }
}

/// A message the Hub sends: a delivery to a reader, or the single
/// acknowledgement of a writer once its routes have drained.
#[derive(Debug, Clone)]
pub enum HubAction {
    HubToPortWrite(PortCap, Payload),
    HubToPortRead(PortCap),
    HubToCellWrite(CellCap, Payload),
    HubToCellRead(CellCap),
}

/// Mathematical model of a [`HubAction`].
pub enum HubActionV {
    HubToPortWrite(PortCap, PayloadV),
    HubToPortRead(PortCap),
    HubToCellWrite(CellCap, PayloadV),
    HubToCellRead(CellCap),
}

impl View for HubAction {
    type V = HubActionV;

    open spec fn view(&self) -> HubActionV {
        match self {
            HubAction::HubToPortWrite(c, p) => HubActionV::HubToPortWrite(*c, p@),
            HubAction::HubToPortRead(c) => HubActionV::HubToPortRead(*c),
            HubAction::HubToCellWrite(c, p) => HubActionV::HubToCellWrite(*c, p@),
            HubAction::HubToCellRead(c) => HubActionV::HubToCellRead(*c),
        }
    }
}

pub open spec fn actions_view(s: Seq<HubAction>) -> Seq<HubActionV> {
    s.map_values(|a: HubAction| a@)
}

/// Every `Port(n)` entry of a route list stays within the port set.
pub open spec fn routes_valid(rs: Seq<Route>, nports: int) -> bool {
    forall|i: int|
        0 <= i < rs.len() ==> ((#[trigger] rs[i]) matches Route::Port(n) ==> n < nports)
}

/// Mathematical model of a [`Hub`].
#[verifier::ext_equal]
pub struct HubV {
    pub myself: Option<HubCap>,
    pub ports: Seq<PortCap>,
    pub cell_in: CellIn,
    pub cell_out: CellOutV,
    pub port_in: Seq<PortInV>,
    pub port_out: Seq<PortOut>,
}

impl PortInV {
    /// Writer and payload come and go together; no routes are pending
    /// without a writer; routes stay within the port set.
    pub open spec fn wf(self, nports: int) -> bool {
        &&& (self.writer is Some <==> self.payload is Some)
        &&& (self.writer is None ==> self.send_to.len() == 0)
        &&& routes_valid(self.send_to, nports)
    }
}

impl HubV {
    pub open spec fn cell_out_wf(self) -> bool {
        &&& (self.cell_out.writer is Some <==> self.cell_out.payload is Some)
        &&& (self.cell_out.writer is None ==> self.cell_out.send_to.len() == 0)
        &&& routes_valid(self.cell_out.send_to, self.ports.len() as int)
    }

    /// Structural well-formedness of the router state.
    pub open spec fn inv(self) -> bool {
        &&& self.port_in.len() == self.ports.len()
        &&& self.port_out.len() == self.ports.len()
        &&& self.cell_out_wf()
        &&& forall|i: int|
            0 <= i < self.port_in.len() ==> (#[trigger] self.port_in[i]).wf(
                self.ports.len() as int,
            )
    }
}

/// The index of the first occurrence of `c` in `ports`.
pub open spec fn port_index(ports: Seq<PortCap>, c: PortCap) -> int
    decreases ports.len(),
{
    if ports.len() == 0 {
        0
    } else if ports[0] == c {
        0
    } else {
        1 + port_index(ports.skip(1), c)
    }
}

pub open spec fn has_port(h: HubV, c: PortCap) -> bool {
    exists|j: int| 0 <= j < h.ports.len() && h.ports[j] == c
}

/// If `c` first occurs at `i`, then `port_index` is exactly `i`.
pub proof fn lemma_port_index_of_first(ports: Seq<PortCap>, c: PortCap, i: int)
    requires
        0 <= i < ports.len(),
        ports[i] == c,
        forall|j: int| 0 <= j < i ==> ports[j] != c,
    ensures
        port_index(ports, c) == i,
    decreases i,
{
    if i == 0 {
    } else {
        assert(ports.skip(1)[i - 1] == ports[i]);
        assert(forall|j: int| 0 <= j < i - 1 ==> ports.skip(1)[j] == ports[j + 1]);
        lemma_port_index_of_first(ports.skip(1), c, i - 1);
    }
}

/// Result of walking one route list against the current receiver slots:
/// the routes kept for a later pass, the receiver slots after the
/// deliveries, and the deliveries made, in order.
#[verifier::ext_equal]
pub struct PassState {
    pub routes: Seq<Route>,
    pub cell_in: CellIn,
    pub port_out: Seq<PortOut>,
    pub acts: Seq<HubActionV>,
}

/// Walk `routes` left to right; deliver `payload` to each destination
/// whose receiver slot is present (consuming the slot and the route),
/// keep every route whose receiver is absent.
pub open spec fn route_pass(
    payload: PayloadV,
    routes: Seq<Route>,
    cell_in: CellIn,
    port_out: Seq<PortOut>,
) -> PassState
    decreases routes.len(),
{
    if routes.len() == 0 {
        PassState { routes, cell_in, port_out, acts: Seq::empty() }
    } else {
        let r0 = routes[0];
        let rest = routes.skip(1);
        match r0 {
            Route::Cell => match cell_in.reader {
                Some(c) => {
                    let p = route_pass(payload, rest, CellIn { reader: None }, port_out);
                    PassState {
                        routes: p.routes,
                        cell_in: p.cell_in,
                        port_out: p.port_out,
                        acts: seq![HubActionV::HubToCellWrite(c, payload)] + p.acts,
                    }
                },
                None => {
                    let p = route_pass(payload, rest, cell_in, port_out);
                    PassState {
                        routes: seq![r0] + p.routes,
                        cell_in: p.cell_in,
                        port_out: p.port_out,
                        acts: p.acts,
                    }
                },
            },
            Route::Port(n) => if n < port_out.len() && port_out[n as int].reader is Some {
                let p = route_pass(
                    payload,
                    rest,
                    cell_in,
                    port_out.update(n as int, PortOut { reader: None }),
                );
                PassState {
                    routes: p.routes,
                    cell_in: p.cell_in,
                    port_out: p.port_out,
                    acts: seq![
                        HubActionV::HubToPortWrite(
                            match port_out[n as int].reader {
                                Some(pc) => pc,
                                None => arbitrary(),
                            },
                            payload,
                        ),
                    ] + p.acts,
                }
            } else {
                let p = route_pass(payload, rest, cell_in, port_out);
                PassState {
                    routes: seq![r0] + p.routes,
                    cell_in: p.cell_in,
                    port_out: p.port_out,
                    acts: p.acts,
                }
            },
        }
    }
}

/// A route pass keeps lengths and route validity, and only consumes
/// receiver slots: a slot still present afterwards is the one that was
/// there before.
pub proof fn lemma_route_pass_wf(
    payload: PayloadV,
    routes: Seq<Route>,
    cell_in: CellIn,
    port_out: Seq<PortOut>,
    nports: int,
)
    requires
        routes_valid(routes, nports),
    ensures
        ({
            let p = route_pass(payload, routes, cell_in, port_out);
            &&& p.port_out.len() == port_out.len()
            &&& routes_valid(p.routes, nports)
            &&& p.routes.len() <= routes.len()
            &&& (p.cell_in.reader is Some ==> p.cell_in == cell_in)
            &&& forall|k: int|
                0 <= k < port_out.len() ==> ((#[trigger] p.port_out[k]).reader is Some
                    ==> p.port_out[k] == port_out[k])
        }),
    decreases routes.len(),
{
    if routes.len() == 0 {
    } else {
        let r0 = routes[0];
        let rest = routes.skip(1);
        assert(forall|i: int| 0 <= i < rest.len() ==> #[trigger] rest[i] == routes[i + 1]);
        assert(routes_valid(rest, nports));
        match r0 {
            Route::Cell => match cell_in.reader {
                Some(_) => {
                    lemma_route_pass_wf(payload, rest, CellIn { reader: None }, port_out, nports);
                },
                None => {
                    lemma_route_pass_wf(payload, rest, cell_in, port_out, nports);
                    let p = route_pass(payload, rest, cell_in, port_out);
                    assert(forall|i: int|
                        0 <= i < (seq![r0] + p.routes).len() ==> #[trigger] (seq![r0]
                            + p.routes)[i] == if i == 0 {
                            r0
                        } else {
                            p.routes[i - 1]
                        });
                },
            },
            Route::Port(n) => if n < port_out.len() && port_out[n as int].reader is Some {
                lemma_route_pass_wf(
                    payload,
                    rest,
                    cell_in,
                    port_out.update(n as int, PortOut { reader: None }),
                    nports,
                );
            } else {
                lemma_route_pass_wf(payload, rest, cell_in, port_out, nports);
                let p = route_pass(payload, rest, cell_in, port_out);
                assert(forall|i: int|
                    0 <= i < (seq![r0] + p.routes).len() ==> #[trigger] (seq![r0] + p.routes)[i]
                        == if i == 0 {
                        r0
                    } else {
                        p.routes[i - 1]
                    });
            },
        }
    }
}

/// One rendezvous attempt for the Cell direction: walk its routes if
/// any are pending, then acknowledge the writer once none remain.
pub open spec fn cell_dir_step(h: HubV) -> (HubV, Seq<HubActionV>) {
    match (h.cell_out.writer, h.cell_out.payload) {
        (Some(w), Some(pl)) => {
            let mid = if h.cell_out.send_to.len() > 0 {
                let p = route_pass(pl, h.cell_out.send_to, h.cell_in, h.port_out);
                (
                    HubV {
                        cell_in: p.cell_in,
                        cell_out: CellOutV { send_to: p.routes, ..h.cell_out },
                        port_out: p.port_out,
                        ..h
                    },
                    p.acts,
                )
            } else {
                (h, Seq::<HubActionV>::empty())
            };
            let h2 = mid.0;
            let a1 = mid.1;
            if h2.cell_out.send_to.len() == 0 {
                (
                    HubV {
                        cell_out: CellOutV { writer: None, payload: None, send_to: Seq::empty() },
                        ..h2
                    },
                    a1.push(HubActionV::HubToCellRead(w)),
                )
            } else {
                (h2, a1)
            }
        },
        _ => (h, Seq::<HubActionV>::empty()),
    }
}

/// One rendezvous attempt for the direction of port `n`.
pub open spec fn port_dir_step(h: HubV, n: int) -> (HubV, Seq<HubActionV>) {
    let pi = h.port_in[n];
    match (pi.writer, pi.payload) {
        (Some(w), Some(pl)) => {
            let mid = if pi.send_to.len() > 0 {
                let p = route_pass(pl, pi.send_to, h.cell_in, h.port_out);
                (
                    HubV {
                        cell_in: p.cell_in,
                        port_out: p.port_out,
                        port_in: h.port_in.update(n, PortInV { send_to: p.routes, ..pi }),
                        ..h
                    },
                    p.acts,
                )
            } else {
                (h, Seq::<HubActionV>::empty())
            };
            let h2 = mid.0;
            let a1 = mid.1;
            if h2.port_in[n].send_to.len() == 0 {
                (
                    HubV {
                        port_in: h2.port_in.update(
                            n,
                            PortInV { writer: None, payload: None, send_to: Seq::empty() },
                        ),
                        ..h2
                    },
                    a1.push(HubActionV::HubToPortRead(w)),
                )
            } else {
                (h2, a1)
            }
        },
        _ => (h, Seq::<HubActionV>::empty()),
    }
}

/// Rendezvous attempts for the directions of ports `n`, `n+1`, ... in
/// order.
pub open spec fn port_dirs_step(h: HubV, n: int) -> (HubV, Seq<HubActionV>)
    decreases h.port_in.len() - n,
{
    if n < 0 || n >= h.port_in.len() {
        (h, Seq::<HubActionV>::empty())
    } else {
        let s1 = port_dir_step(h, n);
        let s2 = port_dirs_step(s1.0, n + 1);
        (s2.0, s1.1 + s2.1)
    }
}

/// The complete rendezvous sweep: nothing before `Init` latched the
/// self-capability; then the Cell direction followed by every port
/// direction in order.
pub open spec fn hub_try_spec(h: HubV) -> (HubV, Seq<HubActionV>) {
    if h.myself is Some {
        let c = cell_dir_step(h);
        let p = port_dirs_step(c.0, 0);
        (p.0, c.1 + p.1)
    } else {
        (h, Seq::<HubActionV>::empty())
    }
}

/// The Cell direction step preserves the invariant and touches neither
/// the port set nor the per-port inbound directions.
pub proof fn lemma_cell_dir_wf(h: HubV)
    requires
        h.inv(),
    ensures
        ({
            let s = cell_dir_step(h);
            &&& s.0.inv()
            &&& s.0.myself == h.myself
            &&& s.0.ports == h.ports
            &&& s.0.port_in == h.port_in
        }),
{
    match (h.cell_out.writer, h.cell_out.payload) {
        (Some(w), Some(pl)) => {
            if h.cell_out.send_to.len() > 0 {
                lemma_route_pass_wf(
                    pl,
                    h.cell_out.send_to,
                    h.cell_in,
                    h.port_out,
                    h.ports.len() as int,
                );
            }
        },
        _ => {},
    }
}

/// A port direction step preserves the invariant and touches neither
/// the port set nor the Cell outbound direction.
pub proof fn lemma_port_dir_wf(h: HubV, n: int)
    requires
        h.inv(),
        0 <= n < h.port_in.len(),
    ensures
        ({
            let s = port_dir_step(h, n);
            &&& s.0.inv()
            &&& s.0.myself == h.myself
            &&& s.0.ports == h.ports
            &&& s.0.cell_out == h.cell_out
            &&& s.0.port_in.len() == h.port_in.len()
        }),
{
    let pi = h.port_in[n];
    match (pi.writer, pi.payload) {
        (Some(w), Some(pl)) => {
            if pi.send_to.len() > 0 {
                lemma_route_pass_wf(pl, pi.send_to, h.cell_in, h.port_out, h.ports.len() as int);
            }
        },
        _ => {},
    }
}

/// Sweeping the port directions preserves the invariant and touches
/// neither the port set nor the Cell outbound direction.
pub proof fn lemma_port_dirs_wf(h: HubV, n: int)
    requires
        h.inv(),
    ensures
        ({
            let s = port_dirs_step(h, n);
            &&& s.0.inv()
            &&& s.0.myself == h.myself
            &&& s.0.ports == h.ports
            &&& s.0.cell_out == h.cell_out
        }),
    decreases h.port_in.len() - n,
{
    if n < 0 || n >= h.port_in.len() {
    } else {
        lemma_port_dir_wf(h, n);
        lemma_port_dirs_wf(port_dir_step(h, n).0, n + 1);
    }
}

/// Every route in the list has an absent receiver, so a pass over the
/// list can deliver nothing.
pub open spec fn dir_blocked(send_to: Seq<Route>, cell_in: CellIn, port_out: Seq<PortOut>) -> bool {
    forall|i: int|
        0 <= i < send_to.len() ==> match #[trigger] send_to[i] {
            Route::Cell => cell_in.reader is None,
            Route::Port(n) => n < port_out.len() ==> port_out[n as int].reader is None,
        }
}

/// No direction can make progress: every staged writer still has routes
/// pending, and every pending route's receiver is absent.
pub open spec fn quiescent(h: HubV) -> bool {
    &&& (h.cell_out.writer is Some ==> h.cell_out.send_to.len() > 0 && dir_blocked(
        h.cell_out.send_to,
        h.cell_in,
        h.port_out,
    ))
    &&& forall|k: int|
        0 <= k < h.port_in.len() ==> ((#[trigger] h.port_in[k]).writer is Some
            ==> h.port_in[k].send_to.len() > 0 && dir_blocked(
            h.port_in[k].send_to,
            h.cell_in,
            h.port_out,
        ))
}

/// Receiver slots only shrink from `(c1, p1)` to `(c2, p2)`.
pub open spec fn receivers_shrink(
    c1: CellIn,
    p1: Seq<PortOut>,
    c2: CellIn,
    p2: Seq<PortOut>,
) -> bool {
    &&& p2.len() == p1.len()
    &&& (c2.reader is Some ==> c2 == c1)
    &&& forall|k: int| 0 <= k < p1.len() ==> ((#[trigger] p2[k]).reader is Some ==> p2[k] == p1[k])
}

/// Blockedness survives any shrinking of the receiver slots.
pub proof fn lemma_blocked_shrink(
    send_to: Seq<Route>,
    c1: CellIn,
    p1: Seq<PortOut>,
    c2: CellIn,
    p2: Seq<PortOut>,
)
    requires
        dir_blocked(send_to, c1, p1),
        receivers_shrink(c1, p1, c2, p2),
    ensures
        dir_blocked(send_to, c2, p2),
{
}

/// After a route pass, the kept routes are blocked against the
/// resulting receiver slots, and the pass only shrinks those slots.
pub proof fn lemma_route_pass_blocked(
    payload: PayloadV,
    routes: Seq<Route>,
    cell_in: CellIn,
    port_out: Seq<PortOut>,
)
    ensures
        ({
            let p = route_pass(payload, routes, cell_in, port_out);
            &&& receivers_shrink(cell_in, port_out, p.cell_in, p.port_out)
            &&& dir_blocked(p.routes, p.cell_in, p.port_out)
        }),
    decreases routes.len(),
{
    if routes.len() == 0 {
    } else {
        let r0 = routes[0];
        let rest = routes.skip(1);
        match r0 {
            Route::Cell => match cell_in.reader {
                Some(_) => {
                    lemma_route_pass_blocked(payload, rest, CellIn { reader: None }, port_out);
                },
                None => {
                    lemma_route_pass_blocked(payload, rest, cell_in, port_out);
                    let p = route_pass(payload, rest, cell_in, port_out);
                    assert(forall|i: int|
                        0 <= i < (seq![r0] + p.routes).len() ==> #[trigger] (seq![r0]
                            + p.routes)[i] == if i == 0 {
                            r0
                        } else {
                            p.routes[i - 1]
                        });
                },
            },
            Route::Port(n) => if n < port_out.len() && port_out[n as int].reader is Some {
                lemma_route_pass_blocked(
                    payload,
                    rest,
                    cell_in,
                    port_out.update(n as int, PortOut { reader: None }),
                );
            } else {
                lemma_route_pass_blocked(payload, rest, cell_in, port_out);
                let p = route_pass(payload, rest, cell_in, port_out);
                assert(forall|i: int|
                    0 <= i < (seq![r0] + p.routes).len() ==> #[trigger] (seq![r0] + p.routes)[i]
                        == if i == 0 {
                        r0
                    } else {
                        p.routes[i - 1]
                    });
            },
        }
    }
}

/// A route pass over a blocked list delivers nothing and changes
/// nothing.
pub proof fn lemma_route_pass_blocked_noop(
    payload: PayloadV,
    routes: Seq<Route>,
    cell_in: CellIn,
    port_out: Seq<PortOut>,
)
    requires
        dir_blocked(routes, cell_in, port_out),
    ensures
        route_pass(payload, routes, cell_in, port_out) == (PassState {
            routes,
            cell_in,
            port_out,
            acts: Seq::<HubActionV>::empty(),
        }),
    decreases routes.len(),
{
    if routes.len() == 0 {
        assert(route_pass(payload, routes, cell_in, port_out).routes =~= routes);
    } else {
        let r0 = routes[0];
        let rest = routes.skip(1);
        assert(forall|i: int| 0 <= i < rest.len() ==> #[trigger] rest[i] == routes[i + 1]);
        lemma_route_pass_blocked_noop(payload, rest, cell_in, port_out);
        assert(seq![r0] + rest =~= routes);
    }
}

/// The Cell direction step leaves its own direction unable to make
/// further progress, and only shrinks the receiver slots.
pub proof fn lemma_cell_dir_quiescent(h: HubV)
    requires
        h.inv(),
    ensures
        ({
            let s = cell_dir_step(h);
            &&& receivers_shrink(h.cell_in, h.port_out, s.0.cell_in, s.0.port_out)
            &&& (s.0.cell_out.writer is Some ==> s.0.cell_out.send_to.len() > 0 && dir_blocked(
                s.0.cell_out.send_to,
                s.0.cell_in,
                s.0.port_out,
            ))
        }),
{
    match (h.cell_out.writer, h.cell_out.payload) {
        (Some(w), Some(pl)) => {
            if h.cell_out.send_to.len() > 0 {
                lemma_route_pass_blocked(pl, h.cell_out.send_to, h.cell_in, h.port_out);
            }
        },
        _ => {},
    }
}

/// A port direction step leaves its own direction unable to make
/// further progress, only shrinks the receiver slots, and touches no
/// other direction.
pub proof fn lemma_port_dir_quiescent(h: HubV, n: int)
    requires
        h.inv(),
        0 <= n < h.port_in.len(),
    ensures
        ({
            let s = port_dir_step(h, n);
            &&& receivers_shrink(h.cell_in, h.port_out, s.0.cell_in, s.0.port_out)
            &&& (s.0.port_in[n].writer is Some ==> s.0.port_in[n].send_to.len() > 0
                && dir_blocked(s.0.port_in[n].send_to, s.0.cell_in, s.0.port_out))
            &&& s.0.port_in.len() == h.port_in.len()
            &&& forall|m: int|
                0 <= m < h.port_in.len() && m != n ==> #[trigger] s.0.port_in[m] == h.port_in[m]
        }),
{
    let pi = h.port_in[n];
    match (pi.writer, pi.payload) {
        (Some(w), Some(pl)) => {
            if pi.send_to.len() > 0 {
                lemma_route_pass_blocked(pl, pi.send_to, h.cell_in, h.port_out);
            }
        },
        _ => {},
    }
}

/// Sweeping the port directions from `n` on leaves every one of them
/// unable to make further progress, keeps the directions before `n`
/// untouched, and only shrinks the receiver slots.
pub proof fn lemma_port_dirs_quiescent(h: HubV, n: int)
    requires
        h.inv(),
        0 <= n,
    ensures
        ({
            let s = port_dirs_step(h, n);
            &&& receivers_shrink(h.cell_in, h.port_out, s.0.cell_in, s.0.port_out)
            &&& s.0.port_in.len() == h.port_in.len()
            &&& forall|m: int|
                0 <= m < h.port_in.len() && m < n ==> #[trigger] s.0.port_in[m] == h.port_in[m]
            &&& forall|m: int|
                n <= m < h.port_in.len() ==> ((#[trigger] s.0.port_in[m]).writer is Some
                    ==> s.0.port_in[m].send_to.len() > 0 && dir_blocked(
                    s.0.port_in[m].send_to,
                    s.0.cell_in,
                    s.0.port_out,
                ))
        }),
    decreases h.port_in.len() - n,
{
    if n < 0 || n >= h.port_in.len() {
    } else {
        let s1 = port_dir_step(h, n);
        lemma_port_dir_wf(h, n);
        lemma_port_dir_quiescent(h, n);
        lemma_port_dirs_quiescent(s1.0, n + 1);
        let s2 = port_dirs_step(s1.0, n + 1);
        assert(port_dirs_step(h, n) == (s2.0, s1.1 + s2.1));
        assert(s2.0.port_in[n] == s1.0.port_in[n]);
        assert forall|m: int|
            n <= m < h.port_in.len() implies ((#[trigger] s2.0.port_in[m]).writer is Some
            ==> s2.0.port_in[m].send_to.len() > 0 && dir_blocked(
            s2.0.port_in[m].send_to,
            s2.0.cell_in,
            s2.0.port_out,
        )) by {
            if m == n && s2.0.port_in[n].writer is Some {
                lemma_blocked_shrink(
                    s1.0.port_in[n].send_to,
                    s1.0.cell_in,
                    s1.0.port_out,
                    s2.0.cell_in,
                    s2.0.port_out,
                );
            }
        }
        assert(s1.0.port_out.len() == h.port_out.len());
        assert forall|k: int| 0 <= k < h.port_out.len() implies ((#[trigger] s2.0.port_out[k]).reader
            is Some ==> s2.0.port_out[k] == h.port_out[k]) by {
            if s2.0.port_out[k].reader is Some {
                assert(s2.0.port_out[k] == s1.0.port_out[k]);
                assert(s1.0.port_out[k].reader is Some);
            }
        }
        assert(receivers_shrink(h.cell_in, h.port_out, s2.0.cell_in, s2.0.port_out));
    }
}

/// After one full rendezvous sweep the hub is quiescent: every staged
/// writer still has routes pending and every pending route's receiver
/// is absent.
pub proof fn lemma_hub_try_quiescent(h: HubV)
    requires
        h.inv(),
        h.myself is Some,
    ensures
        hub_try_spec(h).0.inv(),
        quiescent(hub_try_spec(h).0),
{
    let c = cell_dir_step(h);
    lemma_cell_dir_wf(h);
    lemma_cell_dir_quiescent(h);
    lemma_port_dirs_wf(c.0, 0);
    lemma_port_dirs_quiescent(c.0, 0);
    let p = port_dirs_step(c.0, 0);
    if p.0.cell_out.writer is Some {
        lemma_blocked_shrink(
            c.0.cell_out.send_to,
            c.0.cell_in,
            c.0.port_out,
            p.0.cell_in,
            p.0.port_out,
        );
    }
}

/// A sweep over a quiescent hub makes no progress: it changes nothing
/// and emits nothing. In particular a sweep with no ready receivers at
/// all is such a no-op.
pub proof fn lemma_try_everyone_quiescent_noop(h: HubV)
    requires
        h.inv(),
        quiescent(h),
    ensures
        hub_try_spec(h).0 == h,
        hub_try_spec(h).1 == Seq::<HubActionV>::empty(),
{
    if h.myself is Some {
        match (h.cell_out.writer, h.cell_out.payload) {
            (Some(w), Some(pl)) => {
                lemma_route_pass_blocked_noop(pl, h.cell_out.send_to, h.cell_in, h.port_out);
            },
            _ => {},
        }
        let c = cell_dir_step(h);
        assert(c.0 =~~= h);
        assert(c.1 =~= Seq::<HubActionV>::empty());
        lemma_port_dirs_noop(h, 0);
        assert(hub_try_spec(h).1 =~= Seq::<HubActionV>::empty());
    }
}

/// Each step of a port sweep over a quiescent hub is a no-op.
pub proof fn lemma_port_dirs_noop(h: HubV, n: int)
    requires
        h.inv(),
        quiescent(h),
    ensures
        port_dirs_step(h, n).0 == h,
        port_dirs_step(h, n).1 == Seq::<HubActionV>::empty(),
    decreases h.port_in.len() - n,
{
    if n < 0 || n >= h.port_in.len() {
    } else {
        let pi = h.port_in[n];
        match (pi.writer, pi.payload) {
            (Some(w), Some(pl)) => {
                lemma_route_pass_blocked_noop(pl, pi.send_to, h.cell_in, h.port_out);
            },
            _ => {},
        }
        let s1 = port_dir_step(h, n);
        assert(s1.0.port_in =~= h.port_in);
        assert(s1.0 =~~= h);
        lemma_port_dirs_noop(h, n + 1);
        assert(port_dirs_step(h, n).1 =~= Seq::<HubActionV>::empty());
    }
}

/// Routes are idempotent: one rendezvous sweep leaves the hub
/// quiescent, and a second sweep, run any number of times, changes
/// nothing and emits nothing.
pub proof fn lemma_try_everyone_idempotent(h: HubV)
    requires
        h.inv(),
        h.myself is Some,
    ensures
        ({
            let s = hub_try_spec(h);
            &&& hub_try_spec(s.0).0 == s.0
            &&& hub_try_spec(s.0).1 == Seq::<HubActionV>::empty()
        }),
{
    lemma_hub_try_quiescent(h);
    lemma_try_everyone_quiescent_noop(hub_try_spec(h).0);
}

/// A route pass emits deliveries only, never an acknowledgement.
pub proof fn lemma_route_pass_no_acks(
    payload: PayloadV,
    routes: Seq<Route>,
    cell_in: CellIn,
    port_out: Seq<PortOut>,
)
    ensures
        ({
            let p = route_pass(payload, routes, cell_in, port_out);
            forall|i: int|
                0 <= i < p.acts.len() ==> ((#[trigger] p.acts[i]) matches
                    HubActionV::HubToCellWrite(..) || p.acts[i] matches
                    HubActionV::HubToPortWrite(..))
        }),
    decreases routes.len(),
{
    if routes.len() == 0 {
    } else {
        let r0 = routes[0];
        let rest = routes.skip(1);
        match r0 {
            Route::Cell => match cell_in.reader {
                Some(_) => {
                    lemma_route_pass_no_acks(payload, rest, CellIn { reader: None }, port_out);
                },
                None => {
                    lemma_route_pass_no_acks(payload, rest, cell_in, port_out);
                },
            },
            Route::Port(n) => if n < port_out.len() && port_out[n as int].reader is Some {
                lemma_route_pass_no_acks(
                    payload,
                    rest,
                    cell_in,
                    port_out.update(n as int, PortOut { reader: None }),
                );
            } else {
                lemma_route_pass_no_acks(payload, rest, cell_in, port_out);
            },
        }
    }
}

/// The Cell writer is acknowledged exactly once: one `HubToCellRead`,
/// as the last action of its direction step, exactly when the step
/// clears the writer slot; it is emitted only once the route list has
/// drained, and never while no writer is staged. Because the slot is
/// cleared by the acknowledgement, one staged write yields exactly one
/// acknowledgement over any run of events.
pub proof fn lemma_cell_writer_acked_once(h: HubV)
    requires
        h.inv(),
    ensures
        ({
            let s = cell_dir_step(h);
            let acked = h.cell_out.writer is Some && s.0.cell_out.writer is None;
            &&& (forall|i: int|
                0 <= i < s.1.len() ==> ((#[trigger] s.1[i]) matches HubActionV::HubToCellRead(..)
                    ==> i == s.1.len() - 1))
            &&& acked <==> (s.1.len() > 0 && s.1[s.1.len() - 1] matches
                HubActionV::HubToCellRead(..))
            &&& acked ==> s.0.cell_out.send_to.len() == 0 && (h.cell_out.writer matches Some(w)
                && s.1[s.1.len() - 1] == HubActionV::HubToCellRead(w))
            &&& h.cell_out.writer is None ==> s.0.cell_out.writer is None && s.1
                =~= Seq::<HubActionV>::empty()
        }),
{
    match (h.cell_out.writer, h.cell_out.payload) {
        (Some(w), Some(pl)) => {
            if h.cell_out.send_to.len() > 0 {
                lemma_route_pass_no_acks(pl, h.cell_out.send_to, h.cell_in, h.port_out);
            }
        },
        _ => {},
    }
}

/// The writer of port direction `n` is acknowledged exactly once: one
/// `HubToPortRead`, as the last action of its direction step, exactly
/// when the step clears the writer slot; only once its route list has
/// drained, and never while no writer is staged.
pub proof fn lemma_port_writer_acked_once(h: HubV, n: int)
    requires
        h.inv(),
        0 <= n < h.port_in.len(),
    ensures
        ({
            let s = port_dir_step(h, n);
            let acked = h.port_in[n].writer is Some && s.0.port_in[n].writer is None;
            &&& (forall|i: int|
                0 <= i < s.1.len() ==> ((#[trigger] s.1[i]) matches HubActionV::HubToPortRead(..)
                    ==> i == s.1.len() - 1))
            &&& acked <==> (s.1.len() > 0 && s.1[s.1.len() - 1] matches
                HubActionV::HubToPortRead(..))
            &&& acked ==> s.0.port_in[n].send_to.len() == 0 && (h.port_in[n].writer matches Some(w)
                && s.1[s.1.len() - 1] == HubActionV::HubToPortRead(w))
            &&& h.port_in[n].writer is None ==> s.0.port_in[n] == h.port_in[n] && s.1
                =~= Seq::<HubActionV>::empty()
        }),
{
    let pi = h.port_in[n];
    match (pi.writer, pi.payload) {
        (Some(w), Some(pl)) => {
            if pi.send_to.len() > 0 {
                lemma_route_pass_no_acks(pl, pi.send_to, h.cell_in, h.port_out);
            }
        },
        _ => {},
    }
}

/// The port sweep emits deliveries and port acknowledgements only,
/// never a Cell acknowledgement.
pub proof fn lemma_port_dirs_no_cell_acks(h: HubV, n: int)
    requires
        h.inv(),
    ensures
        ({
            let s = port_dirs_step(h, n);
            forall|i: int|
                0 <= i < s.1.len() ==> !((#[trigger] s.1[i]) matches HubActionV::HubToCellRead(..))
        }),
    decreases h.port_in.len() - n,
{
    if n < 0 || n >= h.port_in.len() {
    } else {
        let pi = h.port_in[n];
        match (pi.writer, pi.payload) {
            (Some(w), Some(pl)) => {
                if pi.send_to.len() > 0 {
                    lemma_route_pass_no_acks(pl, pi.send_to, h.cell_in, h.port_out);
                }
            },
            _ => {},
        }
        lemma_port_dir_wf(h, n);
        lemma_port_dirs_no_cell_acks(port_dir_step(h, n).0, n + 1);
    }
}

pub open spec fn is_cell_ack(a: HubActionV) -> bool {
    a matches HubActionV::HubToCellRead(..)
}

/// Over one full rendezvous sweep the Cell writer is acknowledged at
/// most once, and the acknowledgement happens exactly when the sweep
/// clears the Cell writer slot.
pub proof fn lemma_sweep_cell_ack_at_most_once(h: HubV)
    requires
        h.inv(),
        h.myself is Some,
    ensures
        ({
            let s = hub_try_spec(h);
            &&& forall|i: int, j: int|
                0 <= i < j < s.1.len() ==> !(is_cell_ack(#[trigger] s.1[i]) && is_cell_ack(
                    #[trigger] s.1[j],
                ))
            &&& (exists|i: int| 0 <= i < s.1.len() && is_cell_ack(#[trigger] s.1[i])) <==> (
            h.cell_out.writer is Some && s.0.cell_out.writer is None)
        }),
{
    let c = cell_dir_step(h);
    lemma_cell_dir_wf(h);
    lemma_cell_writer_acked_once(h);
    lemma_port_dirs_no_cell_acks(c.0, 0);
    lemma_port_dirs_wf(c.0, 0);
    let p = port_dirs_step(c.0, 0);
    let s = hub_try_spec(h);
    assert(s.1 == c.1 + p.1);
    assert(forall|i: int|
        0 <= i < s.1.len() ==> #[trigger] s.1[i] == if i < c.1.len() {
            c.1[i]
        } else {
            p.1[i - c.1.len()]
        });
    assert(p.0.cell_out == c.0.cell_out);
    let acked = h.cell_out.writer is Some && s.0.cell_out.writer is None;
    assert forall|i: int, j: int|
        0 <= i < j < s.1.len() implies !(is_cell_ack(s.1[i]) && is_cell_ack(s.1[j])) by {
        if is_cell_ack(s.1[i]) && is_cell_ack(s.1[j]) {
            if j < c.1.len() {
                assert(i == c.1.len() - 1 && j == c.1.len() - 1);
            } else {
                assert(s.1[j] == p.1[j - c.1.len()]);
            }
        }
    }
    if exists|i: int| 0 <= i < s.1.len() && is_cell_ack(#[trigger] s.1[i]) {
        let i = choose|i: int| 0 <= i < s.1.len() && is_cell_ack(#[trigger] s.1[i]);
        if i >= c.1.len() {
            assert(s.1[i] == p.1[i - c.1.len()]);
            assert(false);
        } else {
            assert(is_cell_ack(c.1[i]));
            assert(acked);
        }
    }
    if acked {
        assert(c.1.len() > 0 && is_cell_ack(c.1[c.1.len() - 1]));
        assert(s.1[c.1.len() - 1] == c.1[c.1.len() - 1]);
        assert(0 <= c.1.len() - 1 < s.1.len() && is_cell_ack(s.1[c.1.len() - 1]));
    }
}

/// Which events the Hub accepts without a fatal error: `Init` only
/// once, only known port capabilities, and a free slot for each writer
/// or reader installation. Cell writes need a port to route to.
pub open spec fn hub_event_admissible(h: HubV, ev: HubEventV) -> bool {
    match ev {
        HubEventV::Init(_) => h.myself is None,
        HubEventV::PortStatus(c, _) => has_port(h, c),
        HubEventV::PortToHubWrite(c, _) => has_port(h, c) && h.port_in[port_index(h.ports, c)].writer
            is None,
        HubEventV::PortToHubRead(c) => has_port(h, c) && h.port_out[port_index(h.ports, c)].reader
            is None,
        HubEventV::CellToHubWrite(_, _) => h.cell_out.writer is None && h.ports.len() > 0,
        HubEventV::CellToHubRead(_) => h.cell_in.reader is None,
    }
}

/// The complete transition function of the Hub: next state and emitted
/// messages for each event. Every slot installation is followed by a
/// full rendezvous sweep.
pub open spec fn hub_step(pre: HubV, ev: HubEventV) -> (HubV, Seq<HubActionV>) {
    match ev {
        HubEventV::Init(me) => (HubV { myself: Some(me), ..pre }, Seq::<HubActionV>::empty()),
        HubEventV::PortStatus(_, _) => (pre, Seq::<HubActionV>::empty()),
        HubEventV::PortToHubWrite(c, pl) => {
            let n = port_index(pre.ports, c);
            hub_try_spec(
                HubV {
                    port_in: pre.port_in.update(
                        n,
                        PortInV { writer: Some(c), payload: Some(pl), send_to: seq![Route::Cell] },
                    ),
                    ..pre
                },
            )
        },
        HubEventV::PortToHubRead(c) => {
            let n = port_index(pre.ports, c);
            hub_try_spec(
                HubV { port_out: pre.port_out.update(n, PortOut { reader: Some(c) }), ..pre },
            )
        },
        HubEventV::CellToHubWrite(c, pl) => hub_try_spec(
            HubV {
                cell_out: CellOutV {
                    writer: Some(c),
                    payload: Some(pl),
                    send_to: seq![Route::Port(0)],
                },
                ..pre
            },
        ),
        HubEventV::CellToHubRead(c) => hub_try_spec(
            HubV { cell_in: CellIn { reader: Some(c) }, ..pre },
        ),
    }
}

/// The multi-port rendezvous router.
pub struct Hub {
    pub myself: Option<HubCap>,
    pub ports: Vec<PortCap>,
    pub cell_in: CellIn,
    pub cell_out: CellOut,
    pub port_in: Vec<PortIn>,
    pub port_out: Vec<PortOut>,
}

impl View for Hub {
    type V = HubV;

    open spec fn view(&self) -> HubV {
        HubV {
            myself: self.myself,
            ports: self.ports@,
            cell_in: self.cell_in,
            cell_out: self.cell_out@,
            port_in: self.port_in@.map_values(|pi: PortIn| pi@),
            port_out: self.port_out@,
        }
    }
}

impl Hub {
    /// Construct the router over a fixed ordered port set: all writer
    /// slots empty, every port's reader slot primed, no self-capability
    /// yet. Sending `Init` to self and priming the ports with a read,
    /// as well as starting the external liveness timer, belong to the
    /// runtime around the core.
    pub fn create(port_set: &Vec<PortCap>) -> (h: Hub)
        ensures
            h@.inv(),
            h@.myself is None,
            h@.ports == port_set@,
            h@.cell_in.reader is None,
            h@.cell_out == (CellOutV { writer: None, payload: None, send_to: Seq::empty() }),
            forall|i: int|
                0 <= i < port_set@.len() ==> (#[trigger] h@.port_in[i]) == (PortInV {
                    writer: None,
                    payload: None,
                    send_to: Seq::empty(),
                }),
            forall|i: int|
                0 <= i < port_set@.len() ==> (#[trigger] h@.port_out[i]) == (PortOut {
                    reader: Some(port_set@[i]),
                }),
    {
        let mut ports: Vec<PortCap> = Vec::new();
        let mut port_in: Vec<PortIn> = Vec::new();
        let mut port_out: Vec<PortOut> = Vec::new();
        let mut i: usize = 0;
        while i < port_set.len()
            invariant
                i <= port_set.len(),
                ports@ == port_set@.take(i as int),
                port_in@.len() == i,
                port_out@.len() == i,
                forall|j: int|
                    0 <= j < i ==> (#[trigger] port_in@[j])@ == (PortInV {
                        writer: None,
                        payload: None,
                        send_to: Seq::empty(),
                    }),
                forall|j: int|
                    0 <= j < i ==> (#[trigger] port_out@[j]) == (PortOut {
                        reader: Some(port_set@[j]),
                    }),
            decreases port_set.len() - i,
        {
            ports.push(port_set[i]);
            port_in.push(PortIn { writer: None, payload: None, send_to: Vec::new() });
            port_out.push(PortOut { reader: Some(port_set[i]) });
            i = i + 1;
            proof {
                assert(ports@ =~= port_set@.take(i as int));
            }
        }
        proof {
            assert(port_set@.take(port_set@.len() as int) =~= port_set@);
        }
        Hub {
            myself: None,
            ports,
            cell_in: CellIn { reader: None },
            cell_out: CellOut { writer: None, payload: None, send_to: Vec::new() },
            port_in,
            port_out,
        }
    }

    /// The stable index of a known port capability.
    pub fn port_to_port_num(&self, port: &PortCap) -> (n: usize)
        requires
            has_port(self@, *port),
        ensures
            n < self@.ports.len(),
            self@.ports[n as int] == *port,
            n == port_index(self@.ports, *port),
    {
        let mut i: usize = 0;
        while i < self.ports.len()
            invariant
                i <= self.ports.len(),
                has_port(self@, *port),
                forall|j: int| 0 <= j < i ==> self@.ports[j] != *port,
            decreases self.ports.len() - i,
        {
            if self.ports[i] == *port {
                proof {
                    lemma_port_index_of_first(self@.ports, *port, i as int);
                }
                return i;
            }
            i = i + 1;
        }
        proof {
            assert(false);
        }
        0
    }

    /// Walk one route list and deliver to every destination whose
    /// receiver slot is present, exactly as [`route_pass`] describes;
    /// deliveries are appended to `acts` in route order.
    pub fn send_to_routes(
        payload: &Payload,
        routes: &mut Vec<Route>,
        cell_in: &mut CellIn,
        port_out: &mut Vec<PortOut>,
        acts: &mut Vec<HubAction>,
    )
        requires
            routes_valid(old(routes)@, old(port_out)@.len() as int),
        ensures
            ({
                let p = route_pass(payload@, old(routes)@, *old(cell_in), old(port_out)@);
                &&& final(routes)@ == p.routes
                &&& *final(cell_in) == p.cell_in
                &&& final(port_out)@ == p.port_out
                &&& actions_view(final(acts)@) == actions_view(old(acts)@) + p.acts
            }),
    {
        let ghost routes0 = routes@;
        let ghost cell0 = *cell_in;
        let ghost pout0 = port_out@;
        let ghost acts0 = acts@;
        let mut i: usize = 0;
        proof {
            assert(routes@.skip(0) =~= routes@);
            assert(routes@.take(0) =~= Seq::<Route>::empty());
            assert(routes@.take(0) + route_pass(payload@, routes@, *cell_in, port_out@).routes
                =~= route_pass(payload@, routes@, *cell_in, port_out@).routes);
        }
        while i < routes.len()
            invariant
                i <= routes.len(),
                routes_valid(routes@, port_out@.len() as int),
                port_out@.len() == pout0.len(),
                ({
                    let p_full = route_pass(payload@, routes0, cell0, pout0);
                    let p_rest = route_pass(payload@, routes@.skip(i as int), *cell_in, port_out@);
                    &&& p_full.routes == routes@.take(i as int) + p_rest.routes
                    &&& p_full.cell_in == p_rest.cell_in
                    &&& p_full.port_out == p_rest.port_out
                    &&& actions_view(acts0) + p_full.acts == actions_view(acts@) + p_rest.acts
                }),
            decreases routes.len() - i,
        {
            let ghost routes_pre = routes@;
            let ghost cell_pre = *cell_in;
            let ghost pout_pre = port_out@;
            let ghost acts_pre = acts@;
            proof {
                assert(routes_pre.skip(i as int)[0] == routes_pre[i as int]);
                assert(routes_pre.skip(i as int).skip(1) =~= routes_pre.skip(i as int + 1));
            }
            let r = routes[i];
            let mut consumed = false;
            match r {
                Route::Cell => {
                    match cell_in.reader {
                        Some(c) => {
                            acts.push(HubAction::HubToCellWrite(c, payload.duplicate()));
                            cell_in.reader = None;
                            consumed = true;
                        },
                        None => {},
                    }
                },
                Route::Port(to) => {
                    assert(to < port_out@.len());
                    match port_out[to].reader {
                        Some(pc) => {
                            acts.push(HubAction::HubToPortWrite(pc, payload.duplicate()));
                            port_out[to].reader = None;
                            consumed = true;
                        },
                        None => {},
                    }
                },
            }
            if consumed {
                routes.remove(i);
                proof {
                    assert(routes@ =~= routes_pre.remove(i as int));
                    assert(routes@.take(i as int) =~= routes_pre.take(i as int));
                    assert(routes@.skip(i as int) =~= routes_pre.skip(i as int + 1));
                    assert(actions_view(acts@) =~= actions_view(acts_pre).push(acts@[acts@.len()
                        - 1]@));
                }
            } else {
                i = i + 1;
                proof {
                    assert(routes@.take(i as int) =~= routes_pre.take(i as int - 1).push(
                        routes_pre[i as int - 1],
                    ));
                    assert(routes@.take(i as int - 1) + seq![routes_pre[i as int - 1]]
                        + route_pass(
                        payload@,
                        routes@.skip(i as int),
                        *cell_in,
                        port_out@,
                    ).routes =~= routes@.take(i as int) + route_pass(
                        payload@,
                        routes@.skip(i as int),
                        *cell_in,
                        port_out@,
                    ).routes);
                }
            }
        }
        proof {
            assert(routes@.skip(i as int) =~= Seq::<Route>::empty());
            assert(routes@.take(i as int) =~= routes@);
            let p_full = route_pass(payload@, routes0, cell0, pout0);
            assert(p_full.routes =~= routes@);
            assert(actions_view(acts@) =~= actions_view(acts0) + p_full.acts);
        }
    }

    /// One full rendezvous sweep, exactly [`hub_try_spec`]: deliver
    /// wherever a staged writer meets a present receiver, and
    /// acknowledge each writer whose route list has drained.
    pub fn try_everyone(&mut self) -> (acts: Vec<HubAction>)
        requires
            old(self)@.inv(),
        ensures
            final(self)@.inv(),
            final(self)@ == hub_try_spec(old(self)@).0,
            actions_view(acts@) == hub_try_spec(old(self)@).1,
    {
        let mut acts: Vec<HubAction> = Vec::new();
        proof {
            assert(actions_view(acts@) =~= Seq::<HubActionV>::empty());
        }
        if self.myself.is_none() {
            return acts;
        }
        let ghost h0 = self@;
        // the Cell direction first
        if self.cell_out.writer.is_some() && self.cell_out.payload.is_some() {
            let pl = match &self.cell_out.payload {
                Some(p) => p.duplicate(),
                None => vstd::pervasive::unreached(),
            };
            if self.cell_out.send_to.len() > 0 {
                Hub::send_to_routes(
                    &pl,
                    &mut self.cell_out.send_to,
                    &mut self.cell_in,
                    &mut self.port_out,
                    &mut acts,
                );
            }
            if self.cell_out.send_to.len() == 0 {
                let w = match self.cell_out.writer {
                    Some(w) => w,
                    None => vstd::pervasive::unreached(),
                };
                acts.push(HubAction::HubToCellRead(w));
                self.cell_out.writer = None;
                self.cell_out.payload = None;
            }
        }
        proof {
            lemma_cell_dir_wf(h0);
            assert(self@ =~= cell_dir_step(h0).0);
            assert(actions_view(acts@) =~= cell_dir_step(h0).1);
        }
        // then each port direction in order
        let ghost mid = self@;
        let ghost acts_mid = actions_view(acts@);
        let mut from: usize = 0;
        while from < self.ports.len()
            invariant
                self@.inv(),
                from <= self@.ports.len(),
                self@.ports == mid.ports,
                self@.port_in.len() == self@.ports.len(),
                ({
                    let full = port_dirs_step(mid, 0);
                    let rest = port_dirs_step(self@, from as int);
                    &&& full.0 == rest.0
                    &&& acts_mid + full.1 == actions_view(acts@) + rest.1
                }),
            decreases self.ports.len() - from,
        {
            let ghost n = from as int;
            let ghost hpre = self@;
            let ghost acts_pre = actions_view(acts@);
            let ghost pi0 = hpre.port_in[n];
            proof {
                assert(pi0 == self.port_in@[n]@);
            }
            if self.port_in[from].writer.is_some() && self.port_in[from].payload.is_some() {
                let pl = match &self.port_in[from].payload {
                    Some(p) => p.duplicate(),
                    None => vstd::pervasive::unreached(),
                };
                if self.port_in[from].send_to.len() > 0 {
                    Hub::send_to_routes(
                        &pl,
                        &mut self.port_in[from].send_to,
                        &mut self.cell_in,
                        &mut self.port_out,
                        &mut acts,
                    );
                    proof {
                        let p = route_pass(pl@, pi0.send_to, hpre.cell_in, hpre.port_out);
                        assert(self@.port_in =~~= hpre.port_in.update(
                            n,
                            PortInV { send_to: p.routes, ..pi0 },
                        ));
                        assert(actions_view(acts@) == acts_pre + p.acts);
                    }
                }
                let ghost hmid = self@;
                let ghost acts_mid2 = actions_view(acts@);
                if self.port_in[from].send_to.len() == 0 {
                    let w = match self.port_in[from].writer {
                        Some(w) => w,
                        None => vstd::pervasive::unreached(),
                    };
                    acts.push(HubAction::HubToPortRead(w));
                    self.port_in[from].writer = None;
                    self.port_in[from].payload = None;
                    proof {
                        assert(self@.port_in =~~= hmid.port_in.update(
                            n,
                            PortInV { writer: None, payload: None, send_to: Seq::empty() },
                        ));
                        assert(actions_view(acts@) =~= acts_mid2.push(
                            HubActionV::HubToPortRead(w),
                        ));
                    }
                }
                proof {
                    assert(self@.port_in =~~= port_dir_step(hpre, n).0.port_in);
                    assert(self@ =~~= port_dir_step(hpre, n).0);
                    assert(actions_view(acts@) =~~= acts_pre + port_dir_step(hpre, n).1);
                }
            } else {
                proof {
                    assert(self@ =~~= port_dir_step(hpre, n).0);
                    assert(actions_view(acts@) =~~= acts_pre + port_dir_step(hpre, n).1);
                }
            }
            proof {
                lemma_port_dir_wf(hpre, n);
                let s1 = port_dir_step(hpre, n);
                let s2 = port_dirs_step(self@, n + 1);
                assert(port_dirs_step(hpre, n).1 == s1.1 + s2.1);
                assert(acts_mid + port_dirs_step(mid, 0).1 =~= actions_view(acts@) + s2.1);
            }
            from = from + 1;
        }
        proof {
            assert(port_dirs_step(self@, from as int).1 =~= Seq::<HubActionV>::empty());
            assert(acts_mid + port_dirs_step(mid, 0).1 =~= actions_view(acts@));
            assert(self@ == port_dirs_step(mid, 0).0);
            assert(actions_view(acts@) =~= cell_dir_step(h0).1 + port_dirs_step(
                cell_dir_step(h0).0,
                0,
            ).1);
            lemma_port_dirs_wf(mid, 0);
        }
        acts
    }

    /// Process one event to completion and return the messages to send.
    /// The step is exactly [`hub_step`]: installations into empty slots
    /// followed by a full rendezvous sweep.
    pub fn on_event(&mut self, event: HubEvent) -> (acts: Vec<HubAction>)
        requires
            old(self)@.inv(),
            hub_event_admissible(old(self)@, event@),
        ensures
            final(self)@.inv(),
            final(self)@ == hub_step(old(self)@, event@).0,
            actions_view(acts@) == hub_step(old(self)@, event@).1,
    {
        let ghost h0 = self@;
        match event {
            HubEvent::Init(me) => {
                self.myself = Some(me);
                let acts: Vec<HubAction> = Vec::new();
                proof {
                    assert(self@ =~~= hub_step(h0, event@).0);
                    assert(actions_view(acts@) =~= Seq::<HubActionV>::empty());
                }
                acts
            },
            HubEvent::PortStatus(c, _state) => {
                // observational; the runtime logs it
                let _n = self.port_to_port_num(&c);
                let acts: Vec<HubAction> = Vec::new();
                proof {
                    assert(actions_view(acts@) =~= Seq::<HubActionV>::empty());
                }
                acts
            },
            HubEvent::PortToHubWrite(c, payload) => {
                let n = self.port_to_port_num(&c);
                self.find_routes(Route::Port(n), &payload);
                proof {
                    assert(self@.port_in.len() == h0.port_in.len());
                    assert(n < self.port_in@.len());
                }
                let ghost ha = self@;
                self.port_in[n].writer = Some(c);
                proof {
                    assert(self@.port_in =~~= ha.port_in.update(
                        n as int,
                        PortInV { writer: Some(c), ..ha.port_in[n as int] },
                    ));
                }
                let ghost hb = self@;
                self.port_in[n].payload = Some(payload);
                proof {
                    assert(self@.port_in =~~= hb.port_in.update(
                        n as int,
                        PortInV { payload: Some(event@->PortToHubWrite_1), ..hb.port_in[n as int] },
                    ));
                }
                proof {
                    let h1 = HubV {
                        port_in: h0.port_in.update(
                            n as int,
                            PortInV {
                                writer: Some(c),
                                payload: Some(event@->PortToHubWrite_1),
                                send_to: seq![Route::Cell],
                            },
                        ),
                        ..h0
                    };
                    assert(self@.port_in =~~= h1.port_in);
                    assert(self@ =~~= h1);
                    assert(self@.inv());
                }
                self.try_everyone()
            },
            HubEvent::PortToHubRead(c) => {
                let n = self.port_to_port_num(&c);
                self.port_out[n].reader = Some(c);
                proof {
                    assert(self@.port_out =~= h0.port_out.update(
                        n as int,
                        PortOut { reader: Some(c) },
                    ));
                    assert(self@ =~~= (HubV {
                        port_out: h0.port_out.update(n as int, PortOut { reader: Some(c) }),
                        ..h0
                    }));
                    assert(self@.inv());
                }
                self.try_everyone()
            },
            HubEvent::CellToHubWrite(c, payload) => {
                self.find_routes(Route::Cell, &payload);
                self.cell_out.writer = Some(c);
                self.cell_out.payload = Some(payload);
                proof {
                    let h1 = HubV {
                        cell_out: CellOutV {
                            writer: Some(c),
                            payload: Some(event@->CellToHubWrite_1),
                            send_to: seq![Route::Port(0)],
                        },
                        ..h0
                    };
                    assert(self@ =~~= h1);
                    assert(self@.inv());
                }
                self.try_everyone()
            },
            HubEvent::CellToHubRead(c) => {
                self.cell_in.reader = Some(c);
                proof {
                    assert(self@ =~~= (HubV { cell_in: CellIn { reader: Some(c) }, ..h0 }));
                    assert(self@.inv());
                }
                self.try_everyone()
            },
        }
    }

    /// Assign the routes for a payload that arrived `from` a direction
    /// whose route list must be empty. The policy is fixed and minimal:
    /// Cell traffic routes to `Port(0)`, port traffic routes to the
    /// Cell; the payload's tree id is inspected but does not yet take
    /// part in the decision.
    pub fn find_routes(&mut self, from: Route, payload: &Payload)
        requires
            match from {
                Route::Cell => old(self)@.cell_out.send_to.len() == 0 && old(
                    self,
                )@.ports.len() > 0,
                Route::Port(n) => n < old(self)@.port_in.len() && old(
                    self,
                )@.port_in[n as int].send_to.len() == 0,
            },
        ensures
            match from {
                Route::Cell => final(self)@ == (HubV {
                    cell_out: CellOutV {
                        send_to: seq![Route::Port(0)],
                        ..old(self)@.cell_out
                    },
                    ..old(self)@
                }),
                Route::Port(n) => final(self)@ == (HubV {
                    port_in: old(self)@.port_in.update(
                        n as int,
                        PortInV { send_to: seq![Route::Cell], ..old(self)@.port_in[n as int] },
                    ),
                    ..old(self)@
                }),
            },
    {
        let _tree_id = &payload.id;
        match from {
            Route::Cell => {
                self.cell_out.send_to.push(Route::Port(0));
                proof {
                    assert(self@.cell_out.send_to =~= seq![Route::Port(0)]);
                    assert(self@ =~= (HubV {
                        cell_out: CellOutV {
                            send_to: seq![Route::Port(0)],
                            ..old(self)@.cell_out
                        },
                        ..old(self)@
                    }));
                }
            },
            Route::Port(n) => {
                self.port_in[n].send_to.push(Route::Cell);
                proof {
                    assert(self@.port_in[n as int].send_to =~= seq![Route::Cell]);
                    assert(self@.port_in =~= old(self)@.port_in.update(
                        n as int,
                        PortInV { send_to: seq![Route::Cell], ..old(self)@.port_in[n as int] },
                    ));
                }
            },
        }
    }
}

} // verus!
