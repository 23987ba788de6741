use adb_core::discovery::{discovered_device, Announcement};
use adb_core::identity::{
    ipv4_to_string, parse_ipv4, parse_net_address, reconnect_route, IpAddress, Ipv4Address,
    LinkRoute, NetAddress,
};
use adb_core::pairing::{
    connection_port_from_snapshot, generate_pairing_data, pairing_outcome, pairing_request,
    validate_pairing_code, PortSearch, PortStep, DEFAULT_CONNECTION_PORT,
};

fn ip(a: u8, b: u8, c: u8, d: u8) -> Ipv4Address {
    Ipv4Address { a, b, c, d }
}

#[test]
fn valid_codes_are_accepted_after_trimming() {
    assert_eq!(validate_pairing_code("123456").unwrap(), "123456");
    assert_eq!(validate_pairing_code("  000999\n").unwrap(), "000999");
    assert_eq!(validate_pairing_code("\t654321 ").unwrap(), "654321");
}

#[test]
fn invalid_codes_are_rejected() {
    let length = "Pairing code must be exactly 6 digits";
    let digits = "Pairing code must contain only digits";
    assert_eq!(validate_pairing_code("12345").err().unwrap(), length);
    assert_eq!(validate_pairing_code("1234567").err().unwrap(), length);
    assert_eq!(validate_pairing_code("").err().unwrap(), length);
    assert_eq!(validate_pairing_code("12a456").err().unwrap(), digits);
    assert_eq!(validate_pairing_code("12 456").err().unwrap(), digits);
    assert_eq!(validate_pairing_code("１２３４５６").err().unwrap(), digits);
}

#[test]
fn pairing_request_checks_before_any_network_call() {
    let ok = pairing_request(IpAddress::V4(ip(192, 168, 1, 20)), 37851, " 111222 ").unwrap();
    assert!(ok.ip == ip(192, 168, 1, 20));
    assert_eq!(ok.port, 37851);
    assert_eq!(ok.code, "111222");
    let v6 = pairing_request(IpAddress::V6([0; 8]), 37851, "111222").err().unwrap();
    assert_eq!(v6, "IPv6 addresses are not supported for pairing");
    assert!(pairing_request(IpAddress::V4(ip(10, 0, 0, 1)), 1, "11122").is_err());
}

#[test]
fn pairing_failures_are_explained() {
    assert!(pairing_outcome(&Ok(())).is_ok());
    let parse = pairing_outcome(&Err("ParseIntError { kind: InvalidDigit }".to_string())).err().unwrap();
    assert!(parse.starts_with("Pairing failed due to a protocol parsing error."));
    let refused = pairing_outcome(&Err("IOError(Os { kind: ConnectionRefused })".to_string())).err().unwrap();
    assert!(refused.starts_with("Connection refused. Please ensure:\n1. The device is in pairing mode"));
    let timeout = pairing_outcome(&Err("IOError(TimedOut)".to_string())).err().unwrap();
    assert_eq!(timeout, "Pairing timed out. Please try again with a fresh pairing code.");
    let other = pairing_outcome(&Err("ADBRequestFailed".to_string())).err().unwrap();
    assert_eq!(other, "Pairing failed with error: ADBRequestFailed");
}

#[test]
fn connection_port_comes_from_the_snapshot() {
    let anns = vec![
        Announcement { fullname: "a._adb-tls-pairing._tcp".to_string(), addresses: vec![IpAddress::V4(ip(10, 0, 0, 5))] },
        Announcement { fullname: "a._adb-tls-connect._tcp".to_string(), addresses: vec![IpAddress::V4(ip(10, 0, 0, 5))] },
    ];
    let snap: Vec<_> = anns.iter().filter_map(discovered_device).collect();
    assert_eq!(connection_port_from_snapshot(&snap, "10.0.0.5"), Some(5555));
    assert_eq!(connection_port_from_snapshot(&snap, "10.0.0.6"), None);
}

#[test]
fn port_search_probes_candidates_then_falls_back() {
    let s = PortSearch::new(Some(40001));
    assert!(s.next() == PortStep::Use(40001));

    let mut s = PortSearch::new(None);
    assert!(s.next() == PortStep::Probe(5555));
    s.record_probe(false);
    assert!(s.next() == PortStep::Probe(5556));
    s.record_probe(true);
    assert!(s.next() == PortStep::Use(5556));

    let mut s = PortSearch::new(None);
    for expected in [5555, 5556, 5557, 5558] {
        assert!(s.next() == PortStep::Probe(expected));
        s.record_probe(false);
    }
    assert!(s.next() == PortStep::Use(DEFAULT_CONNECTION_PORT));
}

#[test]
fn qr_pairing_data() {
    let d = generate_pairing_data(Some("10.1.2.3".to_string())).unwrap();
    assert_eq!(d.ip, "10.1.2.3");
    assert_eq!(d.port, 5555);
    assert_eq!(d.qr_data, "10.1.2.3:5555");
    let f = generate_pairing_data(None).unwrap();
    assert_eq!(f.qr_data, "192.168.1.100:5555");
}

#[test]
fn network_identity_routes_to_that_address() {
    let route = reconnect_route("192.168.1.20:5555");
    let addr = NetAddress { ip: ip(192, 168, 1, 20), port: 5555 };
    assert!(route == LinkRoute::Network(addr));
}

#[test]
fn serial_identity_routes_to_wired() {
    assert!(reconnect_route("ABC123XYZ") == LinkRoute::Wired);
    assert!(reconnect_route("192.168.1.20:99999") == LinkRoute::Wired);
    assert!(reconnect_route("192.168.1.20:55:55") == LinkRoute::Wired);
}

#[test]
fn ipv4_text_round_trip_and_strictness() {
    let parse = |s: &str| parse_ipv4(&s.chars().collect());
    assert!(parse("0.0.0.0") == Some(ip(0, 0, 0, 0)));
    assert!(parse("255.255.255.255") == Some(ip(255, 255, 255, 255)));
    assert!(parse("256.1.1.1").is_none());
    assert!(parse("01.2.3.4").is_none());
    assert!(parse("1.2.3").is_none());
    assert!(parse("1.2.3.4.").is_none());
    assert!(parse("+1.2.3.4").is_none());
    assert_eq!(ipv4_to_string(ip(172, 16, 0, 254)), "172.16.0.254");
    assert!(parse_net_address("10.0.0.1:+80") == Some(NetAddress { ip: ip(10, 0, 0, 1), port: 80 }));
    assert!(parse_net_address("10.0.0.1:").is_none());
}

#[test]
fn refused_codes_name_their_fault_before_any_handshake() {
    let at = IpAddress::V4(ip(192, 168, 1, 20));
    assert_eq!(
        pairing_request(at, 37851, "12345").err().unwrap(),
        "Pairing code must be exactly 6 digits"
    );
    assert_eq!(
        pairing_request(at, 37851, "12a456").err().unwrap(),
        "Pairing code must contain only digits"
    );
}
