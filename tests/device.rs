use adb_core::device::{
    command_text, connect_to_discovered_device, device_info_from, discovered_from_report,
    execute_shell_command, next_device_property,
    get_device_info, get_installed_packages, get_logcat_output, list_files, list_files_command,
    logcat_command, parse_packages, pull_file, pull_file_command, shell_command_args,
    with_network_serial, ConnectionMethod, DeviceTransport, DiscoveredDevice,
};
use adb_core::identity::{Ipv4Address, LinkRoute, NetAddress};

fn some(s: &str) -> Option<String> {
    Some(s.to_string())
}

#[test]
fn test_get_device_info() {
    let info = get_device_info(
        DeviceTransport::USB,
        some("R58M123ABC"),
        some("SM-G973F"),
        some("12"),
        some("31"),
    );
    if let Ok(device_info) = info {
        println!("Serial No: {:?}", device_info.serial_no);
        println!("Model: {:?}", device_info.model);
        println!("Android Version: {:?}", device_info.android_version);
        println!("SDK Version: {:?}", device_info.sdk_version);
        assert_eq!(device_info.serial_no, "R58M123ABC");
        assert_eq!(device_info.model, "SM-G973F");
        assert_eq!(device_info.android_version, "12");
        assert_eq!(device_info.sdk_version, "31");
        assert!(device_info.transport == DeviceTransport::USB);
    } else {
        panic!("all four properties were present");
    }
}

#[test]
fn device_report_fails_when_any_property_is_absent() {
    let all = [some("s"), some("m"), some("v"), some("k")];
    for missing in 0..4 {
        let mut p = all.clone();
        p[missing] = None;
        let [a, b, c, d] = p;
        assert!(get_device_info(DeviceTransport::TCP, a, b, c, d).is_err());
    }
}

#[test]
fn network_serial_names_the_address() {
    let info = get_device_info(DeviceTransport::TCP, some("x"), some("m"), some("13"), some("33"))
        .unwrap();
    let info = with_network_serial(info, "192.168.1.20", 5555);
    assert_eq!(info.serial_no, "192.168.1.20:5555");
    assert_eq!(info.model, "m");
}

#[test]
fn command_text_decodes_leniently_and_trims() {
    let out = command_text(&Ok(b"  Pixel \xff7\n".to_vec()));
    assert_eq!(out, Some("Pixel \u{FFFD}7".to_string()));
    assert_eq!(command_text(&Err("closed".to_string())), None);
}

#[test]
fn list_files_decodes_output_and_reports_errors() {
    let bytes = b"-rw-r--r-- 1 u g 3 2024-01-01 12:00 caf\xe9.txt\n".to_vec();
    let files = list_files(&Ok(bytes), "/sdcard").unwrap();
    assert_eq!(files[0].name, "caf\u{FFFD}.txt");
    assert_eq!(files[0].dir, "/sdcard");
    let err = list_files(&Err("Timeout".to_string()), "/").err().unwrap();
    assert_eq!(err, "Failed to list files: Timeout");
    assert_eq!(list_files_command("/sdcard"), vec!["ls", "-la", "/sdcard"]);
}

#[test]
fn packages_keep_prefixed_lines_only() {
    let pkgs = parse_packages("package:com.android.chrome\nnoise\npackage:org.example.app\r\n");
    assert_eq!(pkgs, vec!["com.android.chrome", "org.example.app"]);
    let err = get_installed_packages(&Err("x".to_string())).err().unwrap();
    assert_eq!(err, "Failed to get packages: x");
}

#[test]
fn logcat_arguments_and_output() {
    assert_eq!(logcat_command(200, None), vec!["logcat", "-d", "-t", "200"]);
    assert_eq!(
        logcat_command(5, Some("E".to_string())),
        vec!["logcat", "-d", "-t", "5", "*:E"]
    );
    assert_eq!(get_logcat_output(&Ok(b"a\xffb".to_vec())).unwrap(), "a\u{FFFD}b");
}

#[test]
fn shell_command_is_split_on_whitespace() {
    assert_eq!(shell_command_args("  ls   -l /sdcard ").unwrap(), vec!["ls", "-l", "/sdcard"]);
    assert_eq!(shell_command_args(" \t ").err().unwrap(), "Empty command");
}

#[test]
fn discovered_devices_route_by_their_method() {
    let tcp = DiscoveredDevice {
        connection_method: ConnectionMethod::TCP { socket_address: "10.0.0.7:5556".to_string() },
        model: None,
        android_version: None,
        sdk_version: None,
        is_connected: false,
    };
    let expected = NetAddress { ip: Ipv4Address { a: 10, b: 0, c: 0, d: 7 }, port: 5556 };
    assert!(connect_to_discovered_device(&tcp).unwrap() == LinkRoute::Network(expected));
    let bad = DiscoveredDevice {
        connection_method: ConnectionMethod::TCP { socket_address: "10.0.0.7".to_string() },
        model: None,
        android_version: None,
        sdk_version: None,
        is_connected: false,
    };
    assert_eq!(
        connect_to_discovered_device(&bad).err().unwrap(),
        "Invalid socket address format: 10.0.0.7"
    );
    let info = get_device_info(DeviceTransport::USB, some("S1"), some("M"), some("14"), some("34"))
        .unwrap();
    let usb = discovered_from_report(info);
    assert!(usb.is_connected);
    assert!(connect_to_discovered_device(&usb).unwrap() == LinkRoute::Wired);
}

#[test]
fn command_failures_carry_their_cause() {
    assert_eq!(
        get_logcat_output(&Err("Closed".to_string())).err().unwrap(),
        "Failed to get logcat: Closed"
    );
    assert_eq!(
        execute_shell_command(&Err("Closed".to_string())).err().unwrap(),
        "Command execution failed: Closed"
    );
    assert_eq!(execute_shell_command(&Ok(b"ok\n".to_vec())).unwrap(), "ok\n");
    assert_eq!(pull_file(Err("NoSuchFile".to_string())).err().unwrap(), "Failed to pull file: NoSuchFile");
    assert_eq!(pull_file(Ok(vec![0, 255, 7])).unwrap(), vec![0, 255, 7]);
    assert_eq!(pull_file_command("/sdcard/a.txt"), vec!["cat", "/sdcard/a.txt"]);
}

#[test]
fn property_reads_stop_at_the_first_absent_one() {
    let mut fetched: Vec<Option<String>> = Vec::new();
    assert_eq!(next_device_property(&fetched), Some(0));
    fetched.push(some("serial"));
    assert_eq!(next_device_property(&fetched), Some(1));
    fetched.push(None);
    assert_eq!(next_device_property(&fetched), None);
    assert!(device_info_from(DeviceTransport::USB, fetched).is_err());

    let all = vec![some("s"), some("m"), some("13"), some("33")];
    assert_eq!(next_device_property(&all), None);
    let info = device_info_from(DeviceTransport::TCP, all).unwrap();
    assert_eq!(info.serial_no, "s");
    assert_eq!(info.sdk_version, "33");
    assert!(info.transport == DeviceTransport::TCP);
}
