use adb_core::network::{
    classify_latency, get_connection_type, get_network_info, get_network_speed,
    get_signal_strength, get_wifi_status, mobile_generation, network_commands,
    parse_network_interfaces, signal_percent,
};

fn some(s: &str) -> Option<String> {
    Some(s.to_string())
}

const IP_ADDR: &str = "1: lo: <LOOPBACK,UP,LOWER_UP> mtu 65536\n    link/loopback 00:00:00:00:00:00 brd 00:00:00:00:00:00\n    inet 127.0.0.1/8 scope host lo\n2: wlan0: <BROADCAST,MULTICAST,UP,LOWER_UP> mtu 1500\n    link/ether aa:bb:cc:dd:ee:ff brd ff:ff:ff:ff:ff:ff\n    inet 192.168.1.42/24 brd 192.168.1.255 scope global wlan0\n3: eth0: <BROADCAST,MULTICAST> mtu 1500\n    link/ether 11:22:33:44:55:66 brd ff:ff:ff:ff:ff:ff";

#[test]
fn signal_strength_mapping() {
    assert_eq!(signal_percent(-100), 0);
    assert_eq!(signal_percent(-50), 100);
    assert_eq!(signal_percent(-75), 50);
    assert_eq!(signal_percent(-120), 0);
    assert_eq!(signal_percent(-30), 100);
}

#[test]
fn signal_prefers_telephony_then_wifi() {
    let tel = some("mSignalStrength=SignalStrength: rssi=-75 ber=99");
    let wifi = some("mWifiInfo SSID: x, rssi: -60 dBm");
    assert_eq!(get_signal_strength(&tel, &wifi), Some(50));
    assert_eq!(get_signal_strength(&None, &wifi), Some(80));
    assert_eq!(get_signal_strength(&some("mSignalStrength rssi=bad"), &None), None);
}

#[test]
fn interfaces_are_read_block_by_block() {
    let ifs = parse_network_interfaces(IP_ADDR);
    assert_eq!(ifs.len(), 3);
    assert_eq!(ifs[0].name, "lo");
    assert_eq!(ifs[0].ip_address, some("127.0.0.1"));
    assert_eq!(ifs[0].mac_address, None);
    assert_eq!(ifs[1].name, "wlan0");
    assert_eq!(ifs[1].ip_address, some("192.168.1.42"));
    assert_eq!(ifs[1].mac_address, some("aa:bb:cc:dd:ee:ff"));
    assert_eq!(ifs[1].status, some("UP"));
    assert_eq!(ifs[2].name, "eth0");
    assert_eq!(ifs[2].status, some("DOWN"));
    assert_eq!(ifs[2].ip_address, None);
}

#[test]
fn connection_kinds() {
    let ifs = parse_network_interfaces(IP_ADDR);
    let wifi = some("mWifiInfo SSID: home\nsupplicant state: COMPLETED");
    assert_eq!(get_connection_type(&wifi, &None, &None, &ifs), "WiFi");
    let tel = some("mDataConnectionState=2");
    assert_eq!(get_connection_type(&None, &tel, &some("LTE"), &ifs), "4G LTE");
    assert_eq!(get_connection_type(&None, &tel, &some("HSPA"), &ifs), "3G");
    assert_eq!(get_connection_type(&None, &tel, &None, &ifs), "Mobile Data");
    assert_eq!(get_connection_type(&None, &None, &None, &ifs), "Unknown");
    let eth = parse_network_interfaces("2: eth0: <UP> mtu 1500\n inet 10.0.0.2/8");
    assert_eq!(get_connection_type(&None, &None, &None, &eth), "Ethernet");
}

#[test]
fn mobile_generations() {
    assert_eq!(mobile_generation("NR"), "5G");
    assert_eq!(mobile_generation("EDGE"), "2G");
    assert_eq!(mobile_generation("LTEA"), "4G LTE");
    assert_eq!(mobile_generation("CDMA"), "Mobile Data");
}

#[test]
fn wifi_status_lines() {
    assert_eq!(get_wifi_status(&some("Wi-Fi is enabled")), some("Connected"));
    assert_eq!(get_wifi_status(&some("Wi-Fi is starting\nWi-Fi is disabled")), some("Disconnected"));
    assert_eq!(get_wifi_status(&some("nothing")), None);
}

#[test]
fn latency_bands() {
    let band = |s: &str| classify_latency(&s.chars().collect());
    assert_eq!(band("12.5"), some("Good (>10 Mbps)"));
    assert_eq!(band("49.999"), some("Good (>10 Mbps)"));
    assert_eq!(band("50"), some("Fair (1-10 Mbps)"));
    assert_eq!(band("99.9"), some("Fair (1-10 Mbps)"));
    assert_eq!(band("100"), some("Slow (<1 Mbps)"));
    assert_eq!(band("123456789012345678901234"), some("Slow (<1 Mbps)"));
    assert_eq!(band(".5"), some("Good (>10 Mbps)"));
    assert_eq!(band("abc"), None);
    assert_eq!(band(""), None);
}

#[test]
fn speed_estimates() {
    let ping = some("3 packets transmitted\nround-trip avg = 75.2/80.1 ms");
    assert_eq!(get_network_speed(&ping), some("Fair (1-10 Mbps)"));
    assert_eq!(get_network_speed(&some("100% packet loss")), None);
    assert_eq!(get_network_speed(&some("avg = n/a")), None);
    assert_eq!(get_network_speed(&None), None);
}

#[test]
fn network_report_from_command_outputs() {
    assert_eq!(network_commands()[4], vec!["ping", "-c", "3", "8.8.8.8"]);
    let outputs = vec![some("Wi-Fi is enabled\nmWifiInfo x\nstate: COMPLETED rssi: -55 x"), None, None, some(IP_ADDR), some("avg = 20/30")];
    let n = get_network_info(&outputs);
    assert_eq!(n.wifi_status, some("Connected"));
    assert_eq!(n.connection_type, some("WiFi"));
    assert_eq!(n.signal_strength, Some(90));
    assert_eq!(n.upload_speed, some("Good (>10 Mbps)"));
    assert_eq!(n.download_speed, some("Good (>10 Mbps)"));
    assert_eq!(n.ip_addresses, vec!["127.0.0.1", "192.168.1.42"]);
    assert_eq!(n.mac_addresses, vec!["aa:bb:cc:dd:ee:ff", "11:22:33:44:55:66"]);
    assert_eq!(n.network_interfaces.len(), 3);
}
