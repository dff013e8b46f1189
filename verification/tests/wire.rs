use ayphr::companion::ParsedStatus;
use ayphr::name_order::sort_snapshots_by_name;
use ayphr::serial_state::{scan_snapshot, vanished_ports};
use ayphr::wire::{extend_bytes, flag_byte, push_u16_le, push_u32_le, u32_from_le};

#[test]
fn little_endian_helpers() {
    assert_eq!(flag_byte(true), 1);
    assert_eq!(flag_byte(false), 0);
    assert_eq!(u32_from_le(0x78, 0x56, 0x34, 0x12), 0x1234_5678);
    let mut buf = vec![7u8];
    push_u32_le(&mut buf, 0xA1B2_C3D4);
    push_u16_le(&mut buf, 0x4F4D);
    extend_bytes(&mut buf, &[1, 2]);
    assert_eq!(buf, vec![7, 0xD4, 0xC3, 0xB2, 0xA1, 0x4D, 0x4F, 1, 2]);
}

fn named(port: &str, name: &str) -> ayphr::serial_state::SerialDeviceSnapshot {
    let status = ParsedStatus {
        setup_complete: true,
        authenticated: true,
        auth_required: false,
        wifi_required: false,
        device_name: name.to_string(),
    };
    scan_snapshot(port, &status, false)
}

#[test]
fn snapshots_sorted_by_name_stably() {
    let devices = vec![
        named("p1", "beta"),
        named("p2", "Alpha"),
        named("p3", "alpha"),
        named("p4", "beta"),
        named("p5", ""),
        named("p6", "alphabet"),
    ];
    let sorted = sort_snapshots_by_name(&devices);
    let order: Vec<&str> = sorted.iter().map(|d| d.id.as_str()).collect();
    assert_eq!(order, vec!["p5", "p2", "p3", "p6", "p1", "p4"]);
    let mut reference: Vec<(String, String)> =
        devices.iter().map(|d| (d.name.clone(), d.id.clone())).collect();
    reference.sort_by(|a, b| a.0.cmp(&b.0));
    let ours: Vec<(String, String)> = sorted.iter().map(|d| (d.name.clone(), d.id.clone())).collect();
    assert_eq!(ours, reference);
}

#[test]
fn ports_that_vanished() {
    let previous = vec!["a".to_string(), "b".to_string(), "c".to_string()];
    let seen = vec!["c".to_string(), "d".to_string()];
    assert_eq!(vanished_ports(&previous, &seen), vec!["a".to_string(), "b".to_string()]);
    assert!(vanished_ports(&vec![], &seen).is_empty());
}
