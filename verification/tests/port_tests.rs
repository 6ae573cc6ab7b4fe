use crossbeam::channel::unbounded;
use ether::cap::PortCap;
use ether::frame::{Payload, TreeId};
use ether::link::LinkEvent;
use ether::port::{Port, PortEvent};

fn payload(nonce: u32, bytes: &[u8]) -> Payload {
    Payload { id: TreeId::new(nonce), data: bytes.to_vec() }
}

#[test]
fn init_latches_self_capability() {
    let (tx, _host_rx) = unbounded::<Payload>();
    let (_host_tx, rx) = unbounded::<Payload>();
    let mut port = Port::create(tx, rx);
    assert!(port.myself.is_none());
    let me = PortCap { id: 3 };
    let eff = port.on_event(PortEvent::new_init(&me));
    assert!(eff.to_link.is_none());
    assert!(eff.to_self.is_none());
    assert_eq!(port.myself, Some(me));
}

#[test]
fn inbound_delivery_pushes_and_credits_link() {
    // The outbound host channel is empty: the payload goes up and the
    // Link is credited with a Read for the next inbound.
    let (tx, host_rx) = unbounded::<Payload>();
    let (_host_tx, rx) = unbounded::<Payload>();
    let mut port = Port::create(tx, rx);
    let me = PortCap { id: 3 };
    port.on_event(PortEvent::new_init(&me));

    let p = payload(5, b"hi");
    let eff = port.on_event(PortEvent::new_link_to_port_write(&p));
    match eff.to_link {
        Some(LinkEvent::Read(c)) => assert_eq!(c, me),
        _ => panic!("expected the Read credit to the link"),
    }
    assert!(eff.to_self.is_none());
    assert_eq!(eff.to_host.as_ref().unwrap().data, b"hi".to_vec());
    let got = host_rx.try_recv().expect("the payload should be in the channel");
    assert_eq!(got.data, b"hi".to_vec());
    assert_eq!(got.id, TreeId::new(5));
}

#[test]
fn inbound_delivery_retries_when_channel_full() {
    // One unread payload sits in the outbound host channel: the port
    // must not push a second one; it re-posts the event to itself.
    let (tx, host_rx) = unbounded::<Payload>();
    let (_host_tx, rx) = unbounded::<Payload>();
    let occupant = tx.clone();
    let mut port = Port::create(tx, rx);
    let me = PortCap { id: 3 };
    port.on_event(PortEvent::new_init(&me));
    occupant.send(payload(5, b"unread")).unwrap();

    let p = payload(5, b"next");
    let eff = port.on_event(PortEvent::new_link_to_port_write(&p));
    assert!(eff.to_link.is_none());
    assert!(eff.to_host.is_none());
    match eff.to_self {
        Some(PortEvent::LinkToPortWrite(q)) => assert_eq!(q.data, b"next".to_vec()),
        _ => panic!("expected the event re-posted to self"),
    }
    // Only the original occupant is in the channel.
    assert_eq!(host_rx.try_recv().unwrap().data, b"unread".to_vec());
    assert!(host_rx.try_recv().is_err());
}

#[test]
fn outbound_credit_forwards_host_payload() {
    let (tx, _host_rx) = unbounded::<Payload>();
    let (host_tx, rx) = unbounded::<Payload>();
    let mut port = Port::create(tx, rx);
    let me = PortCap { id: 3 };
    port.on_event(PortEvent::new_init(&me));

    host_tx.send(payload(9, b"out")).unwrap();
    let eff = port.on_event(PortEvent::new_link_to_port_read());
    match eff.to_link {
        Some(LinkEvent::Write(c, q)) => {
            assert_eq!(c, me);
            assert_eq!(q.data, b"out".to_vec());
        },
        _ => panic!("expected the Write toward the link"),
    }
    assert!(eff.to_self.is_none());
}

#[test]
fn outbound_credit_retries_when_host_idle() {
    let (tx, _host_rx) = unbounded::<Payload>();
    let (_host_tx, rx) = unbounded::<Payload>();
    let mut port = Port::create(tx, rx);
    let me = PortCap { id: 3 };
    port.on_event(PortEvent::new_init(&me));

    let eff = port.on_event(PortEvent::new_link_to_port_read());
    assert!(eff.to_link.is_none());
    assert!(matches!(eff.to_self, Some(PortEvent::LinkToPortRead)));
}

#[test]
fn status_report_is_forwarded_to_hub() {
    let (tx, _host_rx) = unbounded::<Payload>();
    let (_host_tx, rx) = unbounded::<Payload>();
    let mut port = Port::create(tx, rx);
    port.on_event(PortEvent::new_init(&PortCap { id: 3 }));
    let eff = port.on_event(PortEvent::new_link_status(&ether::link::LinkState::Run, &-1));
    assert!(eff.to_link.is_none());
    assert!(eff.to_self.is_none());
    assert!(eff.to_host.is_none());
    let report = eff.to_hub.expect("the status should be forwarded upward");
    assert_eq!(report.link_state, ether::link::LinkState::Run);
    assert_eq!(report.ait_balance, -1);
}

#[test]
fn poll_status_travels_link_to_port_to_hub() {
    // The liveness chain: a Poll makes the Link report its status to the
    // Port, the Port forwards it upward as a PortState, and the Hub
    // accepts the report as a PortStatus event.
    let me = PortCap { id: 3 };
    let (tx, _host_rx) = unbounded::<Payload>();
    let (_host_tx, rx) = unbounded::<Payload>();
    let mut port = Port::create(tx, rx);
    port.on_event(PortEvent::new_init(&me));
    let mut link = ether::link::Link::create(5);
    let mut hub = ether::hub::Hub::create(&vec![me]);
    hub.on_event(ether::hub::HubEvent::new_init(&ether::cap::HubCap { id: 1 }));

    let eff = link.on_event(LinkEvent::new_poll(&me));
    let (cap, status) = eff.to_port.expect("Poll must report status");
    assert_eq!(cap, me);
    let eff = port.on_event(status);
    let report = eff.to_hub.expect("the status should be forwarded upward");
    assert_eq!(report.link_state, ether::link::LinkState::Stop);
    assert_eq!(report.ait_balance, 0);
    let acts = hub.on_event(ether::hub::HubEvent::new_port_status(&cap, &report));
    assert!(acts.is_empty());
}
