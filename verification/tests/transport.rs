use clearcam::protocol::envelope::DEFAULT_MAX_PAYLOAD;
use clearcam::transport::error::TransportError;
use clearcam::transport::framing::{incoming_len, outgoing_prefix, MAX_PAYLOAD_USIZE};
use clearcam::transport::listen::ListenTracker;
use clearcam::transport::loopback::{
    loopback_list, loopback_route, loopback_target, loopback_unregister, LoopbackDevice, LoopbackMiss, LoopbackRoute,
    DEFAULT_CONTROL_PORT, DEFAULT_MEDIA_PORT,
};
use clearcam::transport::source::Source;
use clearcam::transport::usb::{poll_diff, ConnectionType, UsbDevice, UsbEvent};

#[test]
fn source_udid_and_display() {
    let usb = Source::Usb { udid: "ABC".into() };
    assert_eq!(usb.udid(), Some("ABC"));
    assert!(usb.is_usb());
    assert_eq!(usb.display_string(), "usb(ABC)");
    assert_eq!(Source::Wifi.udid(), None);
    assert!(!Source::Wifi.is_usb());
    assert_eq!(Source::Wifi.display_string(), "wifi");
}

#[test]
fn rejects_oversized_frame() {
    assert!(matches!(outgoing_prefix(MAX_PAYLOAD_USIZE + 1), Err(TransportError::FrameTooLarge(n)) if n == MAX_PAYLOAD_USIZE + 1));
    assert_eq!(outgoing_prefix(MAX_PAYLOAD_USIZE).unwrap(), [0, 0x10, 0, 0]);
    assert!(matches!(incoming_len(&[0, 0x10, 0, 1]), Err(TransportError::FrameTooLarge(n)) if n == MAX_PAYLOAD_USIZE + 1));
    assert_eq!(incoming_len(&[0, 0, 1, 2]).unwrap(), 258);
    assert_eq!(MAX_PAYLOAD_USIZE, DEFAULT_MAX_PAYLOAD as usize);
}

fn dev(id: u32, udid: &str, connection: ConnectionType) -> UsbDevice {
    UsbDevice { id, udid: udid.into(), connection, product_id: Some(0x12A8) }
}

#[test]
fn poll_reports_new_and_lost_usb_devices() {
    let (now, events) = poll_diff(&[], &[dev(1, "A", ConnectionType::Usb), dev(2, "B", ConnectionType::Network)]);
    assert_eq!(now, vec![dev(1, "A", ConnectionType::Usb)]);
    assert_eq!(events, vec![UsbEvent::Connected(dev(1, "A", ConnectionType::Usb))]);
    let (now2, events2) = poll_diff(&now, &[dev(3, "C", ConnectionType::Usb)]);
    assert_eq!(now2, vec![dev(3, "C", ConnectionType::Usb)]);
    assert_eq!(
        events2,
        vec![UsbEvent::Connected(dev(3, "C", ConnectionType::Usb)), UsbEvent::Lost { id: 1, udid: "A".into() }]
    );
    let (_, quiet) = poll_diff(&now2, &[dev(3, "C", ConnectionType::Usb)]);
    assert!(quiet.is_empty());
}

fn lb(id: u32, udid: &str, c: u32, m: u32) -> LoopbackDevice<u32> {
    LoopbackDevice { id, udid: udid.into(), control_addr: c, media_addr: m }
}

#[test]
fn list_devices_returns_registered() {
    let devs = vec![lb(1, "TEST-UDID", 10, 11)];
    let listed = loopback_list(&devs);
    assert_eq!(listed.len(), 1);
    assert_eq!(listed[0].udid, "TEST-UDID");
    assert_eq!(listed[0].connection, ConnectionType::Usb);
    assert_eq!(listed[0].product_id, None);
}

#[test]
fn open_port_routes_the_two_protocol_ports() {
    let devs = vec![lb(7, "X", 100, 200), lb(7, "Y", 300, 400)];
    assert_eq!(loopback_route(DEFAULT_CONTROL_PORT, DEFAULT_MEDIA_PORT, 7000), Some(LoopbackRoute::Control));
    assert_eq!(loopback_route(7000, 7001, 7001), Some(LoopbackRoute::Media));
    assert_eq!(loopback_route(7000, 7001, 22), None);
    assert_eq!(loopback_target(&devs, 7, 7000, 7000, 7001), Ok(100));
    assert_eq!(loopback_target(&devs, 7, 7001, 7000, 7001), Ok(200));
    assert_eq!(loopback_target(&devs, 7, 80, 7000, 7001), Err(LoopbackMiss::PortNotRouted(80)));
    assert_eq!(loopback_target(&devs, 8, 7000, 7000, 7001), Err(LoopbackMiss::DeviceNotFound(8)));
}

#[test]
fn unregister_drops_every_device_with_the_id() {
    let mut devs = vec![lb(1, "A", 1, 1), lb(2, "B", 2, 2), lb(1, "C", 3, 3)];
    loopback_unregister(&mut devs, 1);
    assert_eq!(devs.len(), 1);
    assert_eq!(devs[0].udid, "B");
    loopback_unregister(&mut devs, 9);
    assert_eq!(devs.len(), 1);
}

#[test]
fn detach_reports_the_udid_seen_at_attach() {
    let mut t = ListenTracker::new();
    assert_eq!(t.on_connected(dev(4, "PHONE", ConnectionType::Usb)), Some(UsbEvent::Connected(dev(4, "PHONE", ConnectionType::Usb))));
    assert_eq!(t.on_connected(dev(5, "WIFI", ConnectionType::Network)), None);
    assert_eq!(t.on_disconnected(4), UsbEvent::Lost { id: 4, udid: "PHONE".into() });
    assert_eq!(t.on_disconnected(4), UsbEvent::Lost { id: 4, udid: String::new() });
    assert_eq!(t.on_disconnected(5), UsbEvent::Lost { id: 5, udid: String::new() });
}

#[test]
fn reattach_replaces_the_remembered_udid() {
    let mut t = ListenTracker::new();
    t.on_connected(dev(1, "OLD", ConnectionType::Usb));
    t.on_connected(dev(1, "NEW", ConnectionType::Usb));
    assert_eq!(t.on_disconnected(1), UsbEvent::Lost { id: 1, udid: "NEW".into() });
}
