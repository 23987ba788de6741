use adb_core::display::{
    display_commands, get_battery_info, get_display_info, parse_battery, parse_display_fact,
    DisplayFact,
};
use adb_core::hardware::{
    format_memory, get_build_info, get_hardware_info, get_storage_info, hardware_commands,
    parse_memory_info, StorageColumn,
};

fn some(s: &str) -> Option<String> {
    Some(s.to_string())
}

const MEMINFO: &str = "MemTotal:    2097152 kB\nMemFree:       12345 kB\nMemAvailable:  512000 kB";

#[test]
fn memory_total_in_gigabytes() {
    assert_eq!(parse_memory_info(MEMINFO, "MemTotal"), some("2.0 GB"));
}

#[test]
fn memory_available_in_megabytes() {
    assert_eq!(parse_memory_info(MEMINFO, "MemAvailable"), some("500 MB"));
}

#[test]
fn memory_boundary_at_1024_megabytes() {
    assert_eq!(format_memory(1_048_575), "1023 MB");
    assert_eq!(format_memory(1_048_576), "1.0 GB");
    assert_eq!(format_memory(1023), "0 MB");
}

#[test]
fn memory_rounds_to_one_decimal_half_to_even() {
    // 1280 MB is exactly 1.25 GB
    assert_eq!(format_memory(1280 * 1024), "1.2 GB");
    // 1331 MB is about 1.2998 GB
    assert_eq!(format_memory(1331 * 1024), "1.3 GB");
    // 3840 MB is exactly 3.75 GB
    assert_eq!(format_memory(3840 * 1024), "3.8 GB");
}

#[test]
fn memory_field_stops_at_first_matching_line() {
    assert_eq!(parse_memory_info("MemTotal: lots kB\nMemTotal: 2048 kB", "MemTotal"), None);
    assert_eq!(parse_memory_info(MEMINFO, "SwapTotal"), None);
}

#[test]
fn storage_columns_of_the_data_line() {
    let df = "Filesystem Size Used Avail Use% Mounted on\n/dev/block/dm-5 110G 40G 70G 37% /data";
    assert_eq!(get_storage_info(df, "/data", StorageColumn::Total), some("110G"));
    assert_eq!(get_storage_info(df, "/data", StorageColumn::Available), some("70G"));
    assert_eq!(get_storage_info("/data 1G", "/data", StorageColumn::Total), None);
}

#[test]
fn hardware_report_from_command_outputs() {
    let cmds = hardware_commands();
    assert_eq!(cmds[2], vec!["cat", "/proc/meminfo"]);
    let outputs = vec![
        some("arm64-v8a"),
        None,
        some(MEMINFO),
        some("/dev/block/sda 64G 10G 54G 16% /data"),
        some("Google"),
        some("google"),
        None,
        some("tensor"),
    ];
    let hw = get_hardware_info(&outputs);
    assert_eq!(hw.cpu_architecture, some("arm64-v8a"));
    assert_eq!(hw.cpu_abi_list, None);
    assert_eq!(hw.total_memory, some("2.0 GB"));
    assert_eq!(hw.available_memory, some("500 MB"));
    assert_eq!(hw.internal_storage_total, some("64G"));
    assert_eq!(hw.internal_storage_available, some("54G"));
    assert_eq!(hw.manufacturer, some("Google"));
    assert_eq!(hw.board, None);
    assert_eq!(hw.hardware, some("tensor"));
}

#[test]
fn build_report_copies_properties() {
    let mut outputs: Vec<Option<String>> = vec![None; 10];
    outputs[0] = some("google/raven/raven:14/AP1A/123:user/release-keys");
    outputs[9] = some("user");
    let b = get_build_info(&outputs);
    assert_eq!(b.fingerprint, outputs[0]);
    assert_eq!(b.build_type, some("user"));
    assert_eq!(b.bootloader, None);
}

#[test]
fn display_facts() {
    assert_eq!(
        parse_display_fact("Physical size: 1080x2400\nOverride size: 720x1600", DisplayFact::Resolution),
        some("1080x2400")
    );
    assert_eq!(parse_display_fact("Physical density: 420", DisplayFact::Density), some("420"));
    assert_eq!(
        parse_display_fact("  mode 1: fps=60, refreshRate=90.0 , x", DisplayFact::RefreshRate),
        some("90.0 Hz")
    );
    assert_eq!(parse_display_fact("nothing here", DisplayFact::Density), None);
}

#[test]
fn orientation_codes_by_name() {
    let cases = [("0", "Portrait"), ("1", "Landscape"), ("2", "Reverse Portrait"), ("3", "Reverse Landscape"), ("7", "7")];
    for (code, name) in cases {
        let text = format!("    SurfaceOrientation: {}\n", code);
        assert_eq!(parse_display_fact(&text, DisplayFact::Orientation), some(name));
    }
}

#[test]
fn display_report_from_command_outputs() {
    assert_eq!(display_commands().len(), 5);
    let outputs = vec![some("Physical size: 1440x3120"), None, some("560"), None, some("SurfaceOrientation: 1")];
    let d = get_display_info(&outputs);
    assert_eq!(d.resolution, some("1440x3120"));
    assert_eq!(d.density, None);
    assert_eq!(d.physical_size, some("560 dpi"));
    assert_eq!(d.refresh_rate, None);
    assert_eq!(d.orientation, some("Landscape"));
}

const BATTERY: &str = "Current Battery Service state:\n  AC powered: false\n  status: 2\n  health: 2\n  level: 87\n  voltage: 4123\n  temperature: 275\n  technology: Li-ion";

#[test]
fn battery_fields() {
    let b = parse_battery(BATTERY);
    assert_eq!(b.level, Some(87));
    assert_eq!(b.status, some("2"));
    assert_eq!(b.health, some("2"));
    assert_eq!(b.voltage, Some(4123));
    assert_eq!(b.temperature_tenths, Some(275));
    assert_eq!(b.technology, some("Li-ion"));
}

#[test]
fn battery_later_lines_override_and_bad_numbers_keep_value() {
    let b = parse_battery("level: 50\nlevel: x\ntemperature: -15");
    assert_eq!(b.level, Some(50));
    assert_eq!(b.temperature_tenths, Some(-15));
}

#[test]
fn battery_report_absent_only_when_command_failed() {
    assert!(get_battery_info(&None).is_none());
    let empty = get_battery_info(&some("")).unwrap();
    assert_eq!(empty.level, None);
    assert_eq!(empty.status, None);
}
