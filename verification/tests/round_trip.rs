//! A payload sent by the Cell on side A travels via Hub, Port and Link,
//! across a loopback wire, into side B's Link, Port, Hub and Cell, and
//! arrives byte-identical with the same TreeId. The test plays the
//! runtime: it forwards every emitted message to its destination.
use crossbeam::channel::unbounded;
use ether::cap::{CellCap, HubCap, PortCap};
use ether::frame::{Frame, Payload, TreeId, TACK, TECK, TICK};
use ether::hub::{Hub, HubAction, HubEvent};
use ether::link::{Link, LinkEvent};
use ether::port::{Port, PortEvent};

fn entangled_i(f: &Frame) -> u8 {
    match f {
        Frame::Entangled { i_state, .. } => *i_state,
        Frame::Reset { .. } => panic!("expected an entangled frame"),
    }
}

#[test]
fn payload_round_trip_cell_to_cell() {
    let port_a = PortCap { id: 1 };
    let port_b = PortCap { id: 2 };
    let cell_a = CellCap { id: 20 };
    let cell_b = CellCap { id: 21 };

    // Side A: hub over one port, port over its host channels, link.
    let mut hub_a = Hub::create(&vec![port_a]);
    hub_a.on_event(HubEvent::new_init(&HubCap { id: 30 }));
    let (a_tx, _a_host_rx) = unbounded::<Payload>();
    let (a_host_tx, a_rx) = unbounded::<Payload>();
    let mut pa = Port::create(a_tx, a_rx);
    pa.on_event(PortEvent::new_init(&port_a));
    let mut la = Link::create(5);

    // Side B, symmetric.
    let mut hub_b = Hub::create(&vec![port_b]);
    hub_b.on_event(HubEvent::new_init(&HubCap { id: 31 }));
    let (b_tx, b_host_rx) = unbounded::<Payload>();
    let (_b_host_tx, b_rx) = unbounded::<Payload>();
    let mut pb = Port::create(b_tx, b_rx);
    pb.on_event(PortEvent::new_init(&port_b));
    let mut lb = Link::create(9);

    // Entangle the two links over the loopback wire.
    let ea = la.on_event(LinkEvent::new_start(&port_a));
    let eb = lb.on_event(LinkEvent::new_start(&port_b));
    let reset_a = ea.to_wire.unwrap();
    let reset_b = eb.to_wire.unwrap();
    let eff = la.on_event(LinkEvent::new_frame(&reset_b));
    assert!(eff.to_wire.is_none()); // A waits; B drives
    let eff = lb.on_event(LinkEvent::new_frame(&reset_a));
    let f = eff.to_wire.unwrap();
    let eff = la.on_event(LinkEvent::new_frame(&f));
    let tick_to_b = eff.to_wire.unwrap();
    let eff = lb.on_event(LinkEvent::new_frame(&tick_to_b));
    let tick_to_a = eff.to_wire.unwrap();
    assert_eq!(entangled_i(&tick_to_a), TICK);

    // B's port declares a reader toward its link.
    lb.on_event(LinkEvent::new_read(&port_b));

    // The Cell on side A offers a payload to its hub; the hub delivers
    // it to port 0 (reader primed at creation) and acks the cell.
    let sent = Payload { id: TreeId::new(5), data: b"hello across".to_vec() };
    let acts = hub_a.on_event(HubEvent::new_cell_to_hub_write(&cell_a, &sent));
    assert_eq!(acts.len(), 2);
    let down = match &acts[0] {
        HubAction::HubToPortWrite(c, q) => {
            assert_eq!(*c, port_a);
            q.clone()
        },
        _ => panic!("expected the delivery to port 0"),
    };
    assert!(matches!(&acts[1], HubAction::HubToCellRead(c) if *c == cell_a));

    // The runtime hands the payload to port A's host-side channel, and
    // the link grants the port space for one outbound.
    a_host_tx.send(down).unwrap();
    let eff = pa.on_event(PortEvent::new_link_to_port_read());
    let write = eff.to_link.expect("the port should forward the payload");
    let eff = la.on_event(write);
    assert!(eff.to_wire.is_none()); // staged until the next heartbeat

    // Heartbeat from B: A begins AIT with the staged payload.
    let eff = la.on_event(LinkEvent::new_frame(&tick_to_a));
    let teck = eff.to_wire.unwrap();
    assert_eq!(entangled_i(&teck), TECK);
    assert_eq!(la.balance, -1);

    // B accepts (reader ready), A acks its writer, B delivers.
    let eff = lb.on_event(LinkEvent::new_frame(&teck));
    let tack = eff.to_wire.unwrap();
    assert_eq!(entangled_i(&tack), TACK);
    assert_eq!(lb.balance, 1);
    let eff = la.on_event(LinkEvent::new_frame(&tack));
    let tick = eff.to_wire.unwrap();
    assert_eq!(la.balance, 0);
    assert!(matches!(eff.to_port, Some((c, PortEvent::LinkToPortRead)) if c == port_a));
    let eff = lb.on_event(LinkEvent::new_frame(&tick));
    assert_eq!(lb.balance, 0);
    let delivered = match eff.to_port {
        Some((c, PortEvent::LinkToPortWrite(q))) => {
            assert_eq!(c, port_b);
            q
        },
        _ => panic!("expected the delivery to B's port"),
    };

    // B's port pushes the payload into its outbound host channel.
    let eff = pb.on_event(PortEvent::LinkToPortWrite(delivered));
    assert!(matches!(eff.to_link, Some(LinkEvent::Read(c)) if c == port_b));
    let up = b_host_rx.try_recv().expect("the payload should reach B's host side");

    // B's host offers it to B's hub; the cell is ready to receive.
    hub_b.on_event(HubEvent::new_cell_to_hub_read(&cell_b));
    let acts = hub_b.on_event(HubEvent::new_port_to_hub_write(&port_b, &up));
    assert_eq!(acts.len(), 2);
    let received = match &acts[0] {
        HubAction::HubToCellWrite(c, q) => {
            assert_eq!(*c, cell_b);
            q.clone()
        },
        _ => panic!("expected the delivery to B's cell"),
    };
    assert!(matches!(&acts[1], HubAction::HubToPortRead(c) if *c == port_b));

    // Byte-identical, same TreeId.
    assert_eq!(received.data, b"hello across".to_vec());
    assert_eq!(received.id, TreeId::new(5));
}
