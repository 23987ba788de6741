use adb_core::discovery::{
    discover_wireless_devices_detailed, discovered_device, Announcement, DiscoveryAction,
    DiscoveryEvent, DiscoveryPhase, DiscoveryWindow, ListenerFailure, CONNECTION_PORT,
    DISCOVERY_BUDGET_MS, PAIRING_PORT, POLL_INTERVAL_MS,
};
use adb_core::identity::{IpAddress, Ipv4Address};

fn v4(a: u8, b: u8, c: u8, d: u8) -> IpAddress {
    IpAddress::V4(Ipv4Address { a, b, c, d })
}

fn v6() -> IpAddress {
    IpAddress::V6([0xfe80, 0, 0, 0, 0x1, 0x2, 0x3, 0x4])
}

fn ann(name: &str, addresses: Vec<IpAddress>) -> Announcement {
    Announcement { fullname: name.to_string(), addresses }
}

#[test]
fn ipv6_only_announcement_is_dropped() {
    let a = ann("pixel._adb-tls-connect._tcp.local.", vec![v6(), v6()]);
    assert!(discovered_device(&a).is_none());
}

#[test]
fn mixed_addresses_keep_only_ipv4() {
    let a = ann("pixel._adb-tls-pairing._tcp.local.", vec![v6(), v4(192, 168, 1, 20), v6(), v4(10, 0, 0, 3)]);
    let d = discovered_device(&a).unwrap();
    assert_eq!(d.addresses, vec!["192.168.1.20", "10.0.0.3"]);
}

#[test]
fn record_fields_follow_the_service_kind() {
    let c = discovered_device(&ann("adb-XYZ._adb-tls-connect._tcp.local.", vec![v4(1, 2, 3, 4)])).unwrap();
    assert_eq!(c.name, "adb-XYZ");
    assert_eq!(c.fullname, "adb-XYZ._adb-tls-connect._tcp.local.");
    assert_eq!(c.port, PAIRING_PORT);
    assert_eq!(c.connection_port, Some(CONNECTION_PORT));
    assert!(!c.is_paired && !c.is_connected);
    let p = discovered_device(&ann("studio._adb-tls-pairing._tcp.local.", vec![v4(1, 2, 3, 4)])).unwrap();
    assert_eq!(p.port, 37851);
    assert_eq!(p.connection_port, None);
    let u = discovered_device(&ann("printer", vec![v4(255, 0, 10, 1)])).unwrap();
    assert_eq!(u.name, "printer");
    assert_eq!(u.connection_port, None);
    assert_eq!(u.addresses, vec!["255.0.10.1"]);
}

#[test]
fn snapshot_keeps_order_and_drops_ipv6_only() {
    let anns = vec![
        ann("a._adb-tls-connect._tcp", vec![v4(10, 0, 0, 1)]),
        ann("b._adb-tls-connect._tcp", vec![v6()]),
        ann("c._adb-tls-pairing._tcp", vec![v4(10, 0, 0, 2), v6()]),
    ];
    let snap = discover_wireless_devices_detailed(&anns);
    let names: Vec<&str> = snap.iter().map(|d| d.name.as_str()).collect();
    assert_eq!(names, vec!["a", "c"]);
    assert!(discover_wireless_devices_detailed(&Vec::new()).is_empty());
}

#[test]
fn window_runs_through_its_phases() {
    let mut w = DiscoveryWindow::new(DISCOVERY_BUDGET_MS);
    assert!(w.first_action() == DiscoveryAction::StartListener);
    assert!(w.step(DiscoveryEvent::ListenerStarted(Ok(()))) == DiscoveryAction::ReadClock);
    assert!(w.step(DiscoveryEvent::Clock(0)) == DiscoveryAction::Poll);
    let heard = ann("tv._adb-tls-connect._tcp.local.", vec![v6(), v4(192, 168, 0, 9)]);
    assert!(w.step(DiscoveryEvent::Polled(Some(heard))) == DiscoveryAction::Sleep(POLL_INTERVAL_MS));
    assert!(w.step(DiscoveryEvent::Clock(100)) == DiscoveryAction::Poll);
    assert!(w.step(DiscoveryEvent::Polled(None)) == DiscoveryAction::Sleep(100));
    assert!(w.step(DiscoveryEvent::Polled(Some(ann("x", vec![v6()])))) == DiscoveryAction::Sleep(100));
    assert!(w.step(DiscoveryEvent::Clock(5000)) == DiscoveryAction::StopListener);
    assert!(w.phase == DiscoveryPhase::Draining);
    assert!(w.step(DiscoveryEvent::Clock(6000)) == DiscoveryAction::StopListener);
    assert!(w.step(DiscoveryEvent::ListenerStopped(Ok(()))) == DiscoveryAction::Finish);
    let devices = w.outcome().unwrap();
    assert_eq!(devices.len(), 1);
    assert_eq!(devices[0].addresses, vec!["192.168.0.9"]);
}

#[test]
fn listener_failures_are_fatal() {
    let mut w = DiscoveryWindow::new(5000);
    let create = ListenerFailure::Create("Io(Os { code: 98 })".to_string());
    assert!(w.step(DiscoveryEvent::ListenerStarted(Err(create))) == DiscoveryAction::Finish);
    assert_eq!(w.outcome().err().unwrap(), "Failed to create mDNS discovery service: Io(Os { code: 98 })");

    let mut w = DiscoveryWindow::new(5000);
    let start = ListenerFailure::Start("Closed".to_string());
    w.step(DiscoveryEvent::ListenerStarted(Err(start)));
    assert_eq!(w.outcome().err().unwrap(), "Failed to start mDNS discovery: Closed");

    let mut w = DiscoveryWindow::new(5000);
    w.step(DiscoveryEvent::ListenerStarted(Ok(())));
    w.step(DiscoveryEvent::Clock(5000));
    w.step(DiscoveryEvent::ListenerStopped(Err("Again".to_string())));
    assert!(w.phase == DiscoveryPhase::Finished);
    assert_eq!(w.outcome().err().unwrap(), "Failed to shutdown mDNS discovery: Again");
}
