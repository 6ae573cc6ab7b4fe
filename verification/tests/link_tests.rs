use ether::cap::PortCap;
use ether::frame::{Frame, Payload, TreeId, RTECK, TACK, TECK, TICK};
use ether::link::{Link, LinkEffects, LinkEvent, LinkState};
use ether::port::PortEvent;

fn payload(nonce: u32, bytes: &[u8]) -> Payload {
    Payload { id: TreeId::new(nonce), data: bytes.to_vec() }
}

fn entangled(tree_nonce: u32, i: u8, u: u8) -> Frame {
    Frame::new_entangled(&TreeId::new(tree_nonce), i, u)
}

fn wire_frame(eff: &LinkEffects) -> &Frame {
    eff.to_wire.as_ref().expect("expected a frame on the wire")
}

fn assert_entangled_i(f: &Frame, i: u8) {
    match f {
        Frame::Entangled { i_state, .. } => assert_eq!(*i_state, i),
        Frame::Reset { .. } => panic!("expected an entangled frame"),
    }
}

#[test]
fn create_starts_stopped() {
    let l = Link::create(5);
    assert_eq!(l.state, LinkState::Stop);
    assert_eq!(l.balance, 0);
    assert_eq!(l.nonce, 5);
    assert!(l.reader.is_none());
    assert!(l.writer.is_none());
}

#[test]
fn start_transmits_reset_and_reports_status() {
    let mut l = Link::create(5);
    let cap = PortCap { id: 1 };
    let eff = l.on_event(LinkEvent::new_start(&cap));
    match wire_frame(&eff) {
        Frame::Reset { nonce } => assert_eq!(*nonce, 5),
        _ => panic!("expected Reset"),
    }
    assert_eq!(l.state, LinkState::Init);
    match eff.to_port {
        Some((c, PortEvent::LinkStatus(s, b))) => {
            assert_eq!(c, cap);
            assert_eq!(s, LinkState::Init);
            assert_eq!(b, 0);
        },
        _ => panic!("expected a status report"),
    }
}

#[test]
fn handshake_asymmetric_nonces() {
    // Link A nonce=5, Link B nonce=9; both Start; B drives.
    let cap_a = PortCap { id: 1 };
    let cap_b = PortCap { id: 2 };
    let mut a = Link::create(5);
    let mut b = Link::create(9);
    let ea = a.on_event(LinkEvent::new_start(&cap_a));
    let eb = b.on_event(LinkEvent::new_start(&cap_b));
    let reset_a = wire_frame(&ea).clone();
    let reset_b = wire_frame(&eb).clone();

    // A receives Reset(9): enters Init and waits.
    let eff = a.on_event(LinkEvent::new_frame(&reset_b));
    assert!(eff.to_wire.is_none());
    assert_eq!(a.state, LinkState::Init);

    // B receives Reset(5): sends Entangled(TreeId(9), TICK, TICK).
    let eff = b.on_event(LinkEvent::new_frame(&reset_a));
    let f = wire_frame(&eff).clone();
    match &f {
        Frame::Entangled { tree_id, i_state, u_state, payload } => {
            assert_eq!(tree_id.nonce, 9);
            assert_eq!(*i_state, TICK);
            assert_eq!(*u_state, TICK);
            assert!(payload.is_none());
        },
        _ => panic!("expected an entangled frame"),
    }

    // A receives it, goes Live, replies Entangled(TreeId(5), TICK, TICK).
    let eff = a.on_event(LinkEvent::new_frame(&f));
    assert_eq!(a.state, LinkState::Live);
    match wire_frame(&eff) {
        Frame::Entangled { tree_id, i_state, .. } => {
            assert_eq!(tree_id.nonce, 5);
            assert_eq!(*i_state, TICK);
        },
        _ => panic!("expected an entangled frame"),
    }
}

#[test]
fn handshake_collision_rerolls() {
    // Both links nonce=7; each receives the other's Reset(7), draws a
    // fresh nonce and re-sends Reset, until the nonces differ.
    let mut a = Link::create(7);
    let mut b = Link::create(7);
    let ea = a.on_event(LinkEvent::new_start(&PortCap { id: 1 }));
    let eb = b.on_event(LinkEvent::new_start(&PortCap { id: 2 }));
    let mut reset_a = wire_frame(&ea).clone();
    let mut reset_b = wire_frame(&eb).clone();
    let mut rounds = 0;
    while a.nonce == b.nonce {
        let ea = a.on_event(LinkEvent::new_frame(&reset_b));
        let eb = b.on_event(LinkEvent::new_frame(&reset_a));
        let fa = wire_frame(&ea).clone();
        let fb = wire_frame(&eb).clone();
        assert!(fa.is_reset());
        assert!(fb.is_reset());
        assert_eq!(a.state, LinkState::Init);
        assert_eq!(b.state, LinkState::Init);
        reset_a = fa;
        reset_b = fb;
        rounds += 1;
        assert!(rounds < 100, "collision did not resolve");
    }
    // The exchange now reduces to the asymmetric handshake.
    let eff_lo = if a.nonce < b.nonce {
        let e = b.on_event(LinkEvent::new_frame(&reset_a));
        a.on_event(LinkEvent::new_frame(&reset_b));
        e
    } else {
        let e = a.on_event(LinkEvent::new_frame(&reset_b));
        b.on_event(LinkEvent::new_frame(&reset_a));
        e
    };
    assert_entangled_i(wire_frame(&eff_lo), TICK);
}

#[test]
fn ait_reader_ready() {
    // Steady state; A writes "hi"; B has a reader.
    let cap_a = PortCap { id: 1 };
    let cap_b = PortCap { id: 2 };
    let mut a = Link::create(5);
    let mut b = Link::create(9);
    a.on_event(LinkEvent::new_start(&cap_a));
    b.on_event(LinkEvent::new_start(&cap_b));
    a.on_event(LinkEvent::new_frame(&Frame::new_reset(9)));
    b.on_event(LinkEvent::new_frame(&Frame::new_reset(5)));

    let p = payload(5, b"hi");
    let eff = a.on_event(LinkEvent::new_write(&cap_a, &p));
    assert!(eff.to_wire.is_none());
    let eff = b.on_event(LinkEvent::new_read(&cap_b));
    assert!(eff.to_wire.is_none());

    // Next TICK from B: A replies TECK carrying "hi"; balance_A = -1.
    let eff = a.on_event(LinkEvent::new_frame(&entangled(9, TICK, TICK)));
    let teck = wire_frame(&eff).clone();
    match &teck {
        Frame::Entangled { i_state, payload, .. } => {
            assert_eq!(*i_state, TECK);
            assert_eq!(payload.as_ref().unwrap().data, b"hi".to_vec());
        },
        _ => panic!("expected TECK"),
    }
    assert_eq!(a.balance, -1);

    // B stages "hi", replies TACK; balance_B = +1.
    let eff = b.on_event(LinkEvent::new_frame(&teck));
    let tack = wire_frame(&eff).clone();
    assert_entangled_i(&tack, TACK);
    assert_eq!(b.balance, 1);
    assert_eq!(b.inbound.as_ref().unwrap().data, b"hi".to_vec());

    // On TACK, A acks its writer and replies TICK; balance_A = 0.
    let eff = a.on_event(LinkEvent::new_frame(&tack));
    let tick = wire_frame(&eff).clone();
    assert_entangled_i(&tick, TICK);
    assert_eq!(a.balance, 0);
    assert!(a.writer.is_none());
    assert!(a.outbound.is_none());
    match eff.to_port {
        Some((c, PortEvent::LinkToPortRead)) => assert_eq!(c, cap_a),
        _ => panic!("expected the writer acknowledgement"),
    }

    // On that TICK, B delivers "hi" to its reader; balance_B = 0.
    let eff = b.on_event(LinkEvent::new_frame(&tick));
    assert_eq!(b.balance, 0);
    match eff.to_port {
        Some((c, PortEvent::LinkToPortWrite(q))) => {
            assert_eq!(c, cap_b);
            assert_eq!(q.data, b"hi".to_vec());
            assert_eq!(q.id, TreeId::new(5));
        },
        _ => panic!("expected the delivery to the reader"),
    }
    assert!(b.reader.is_none());
    assert!(b.inbound.is_none());
}

#[test]
fn ait_reader_not_ready() {
    // As the reader-ready exchange, but B has no reader when TECK
    // arrives: B replies RTECK, A clears its deficit, keeps the staged
    // outbound, and retries TECK on the next TICK.
    let cap_a = PortCap { id: 1 };
    let mut a = Link::create(5);
    let mut b = Link::create(9);
    a.on_event(LinkEvent::new_start(&cap_a));
    b.on_event(LinkEvent::new_start(&PortCap { id: 2 }));
    a.on_event(LinkEvent::new_frame(&Frame::new_reset(9)));
    b.on_event(LinkEvent::new_frame(&Frame::new_reset(5)));

    let p = payload(5, b"hi");
    a.on_event(LinkEvent::new_write(&cap_a, &p));

    let eff = a.on_event(LinkEvent::new_frame(&entangled(9, TICK, TICK)));
    let teck = wire_frame(&eff).clone();
    assert_eq!(a.balance, -1);

    // No reader at B: reject.
    let eff = b.on_event(LinkEvent::new_frame(&teck));
    let rteck = wire_frame(&eff).clone();
    assert_entangled_i(&rteck, RTECK);
    assert_eq!(b.balance, 0);

    // A receives RTECK: deficit cleared, outbound still staged.
    let eff = a.on_event(LinkEvent::new_frame(&rteck));
    assert_entangled_i(wire_frame(&eff), TICK);
    assert_eq!(a.balance, 0);
    assert!(a.outbound.is_some());

    // On the next TICK, A retries the TECK.
    let eff = a.on_event(LinkEvent::new_frame(&entangled(9, TICK, TICK)));
    assert_entangled_i(wire_frame(&eff), TECK);
    assert_eq!(a.balance, -1);
}

#[test]
fn stop_masks_traffic() {
    // A link in Stop drops inbound frames and emits nothing except
    // status on Poll/Stop; Start restarts from Reset.
    let cap = PortCap { id: 1 };
    let mut l = Link::create(5);
    let eff = l.on_event(LinkEvent::new_frame(&entangled(9, TICK, TICK)));
    assert!(eff.to_wire.is_none());
    assert!(eff.to_port.is_none());
    assert_eq!(l.state, LinkState::Stop);

    let eff = l.on_event(LinkEvent::new_frame(&Frame::new_reset(9)));
    assert!(eff.to_wire.is_none());
    assert_eq!(l.state, LinkState::Stop);

    let eff = l.on_event(LinkEvent::new_poll(&cap));
    assert!(eff.to_wire.is_none());
    match eff.to_port {
        Some((_, PortEvent::LinkStatus(s, b))) => {
            assert_eq!(s, LinkState::Stop);
            assert_eq!(b, 0);
        },
        _ => panic!("expected a status report"),
    }

    let eff = l.on_event(LinkEvent::new_start(&cap));
    assert!(wire_frame(&eff).is_reset());
    assert_eq!(l.state, LinkState::Init);
}

#[test]
fn poll_demotes_live_to_run() {
    let cap = PortCap { id: 1 };
    let mut l = Link::create(9);
    l.on_event(LinkEvent::new_start(&cap));
    l.on_event(LinkEvent::new_frame(&Frame::new_reset(5)));
    l.on_event(LinkEvent::new_frame(&entangled(5, TICK, TICK)));
    assert_eq!(l.state, LinkState::Live);
    // Poll reports Live, then demotes to Run.
    let eff = l.on_event(LinkEvent::new_poll(&cap));
    match eff.to_port {
        Some((_, PortEvent::LinkStatus(s, _))) => assert_eq!(s, LinkState::Live),
        _ => panic!("expected a status report"),
    }
    assert_eq!(l.state, LinkState::Run);
    let eff = l.on_event(LinkEvent::new_poll(&cap));
    match eff.to_port {
        Some((_, PortEvent::LinkStatus(s, _))) => assert_eq!(s, LinkState::Run),
        _ => panic!("expected a status report"),
    }
}

#[test]
fn frame_helpers() {
    let f = Frame::new_reset(42);
    assert!(f.is_reset());
    assert!(!f.is_entangled());
    assert_eq!(f.get_nonce(), 42);

    let mut e = Frame::new_entangled(&TreeId::new(7), TECK, TICK);
    assert!(e.is_entangled());
    assert_eq!(e.get_i_state(), TECK);
    let p = payload(7, b"abc");
    e.set_payload(&p);
    let q = e.get_payload();
    assert_eq!(q.data, b"abc".to_vec());
    assert_eq!(q.id, TreeId::new(7));
}
