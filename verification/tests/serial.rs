use ayphr::companion::ParsedStatus;
use ayphr::framing::{classify_frame_length, encode_frame, frame_payload_len, FrameLength, MAX_PAYLOAD_LEN};
use ayphr::keyed::KeyedList;
use ayphr::serial_state::{
    contains_any, contains_text, get_serial_devices, invalidate_port, is_authenticated, is_likely_non_device_port,
    refresh_snapshots, scan_round, scan_snapshot, upsert_auth, SerialDeviceStore,
};

fn status(name: &str) -> ParsedStatus {
    ParsedStatus {
        setup_complete: true,
        authenticated: false,
        auth_required: true,
        wifi_required: true,
        device_name: name.to_string(),
    }
}

#[test]
fn auth_cache_expires_after_ten_minutes() {
    let mut store = SerialDeviceStore::default();
    upsert_auth(&mut store, "/dev/ttyUSB0", true, 1_000);
    assert!(is_authenticated(&store, "/dev/ttyUSB0", 1_000));
    assert!(is_authenticated(&store, "/dev/ttyUSB0", 600_999));
    assert!(!is_authenticated(&store, "/dev/ttyUSB0", 601_000));
    assert!(!is_authenticated(&store, "/dev/ttyUSB1", 1_000));
    upsert_auth(&mut store, "/dev/ttyUSB0", false, 2_000);
    assert!(!is_authenticated(&store, "/dev/ttyUSB0", 2_000));
}

#[test]
fn refresh_marks_cached_devices() {
    let mut store = SerialDeviceStore::default();
    store.set_devices(vec![
        scan_snapshot("a", &status("A"), false),
        scan_snapshot("b", &status("B"), false),
    ]);
    upsert_auth(&mut store, "a", true, 0);
    upsert_auth(&mut store, "b", true, 500_000);
    refresh_snapshots(&mut store, 700_000);
    let devices = get_serial_devices(&store);
    assert!(!devices[0].authenticated && !devices[0].connected);
    assert!(devices[1].authenticated && devices[1].connected);
    assert!(!is_authenticated(&store, "a", 0));
}

#[test]
fn mark_connected_updates_first_match() {
    let mut store = SerialDeviceStore::default();
    store.set_devices(vec![scan_snapshot("a", &status("A"), false)]);
    let mut st = status("Renamed");
    st.setup_complete = false;
    store.mark_connected("a", &st);
    store.mark_connected("zzz", &status("Nobody"));
    let devices = get_serial_devices(&store);
    assert_eq!(devices.len(), 1);
    assert_eq!(devices[0].name, "Renamed");
    assert!(!devices[0].setup_complete);
    assert!(devices[0].authenticated);
    assert!(!devices[0].auth_required);
}

#[test]
fn scan_snapshot_fields() {
    let s = scan_snapshot("/dev/ttyACM0", &status("Geo"), false);
    assert_eq!(s.id, "/dev/ttyACM0");
    assert_eq!(s.address, "/dev/ttyACM0");
    assert_eq!(s.model_id, "geo-gen1");
    assert_eq!(s.transport, "serial");
    assert_eq!(s.status_label, "Serial connected");
    assert!(!s.authenticated);
    assert!(scan_snapshot("p", &status("Geo"), true).authenticated);
    let mut open = status("Geo");
    open.auth_required = false;
    assert!(scan_snapshot("p", &open, false).authenticated);
}

#[test]
fn port_cache_invalidation() {
    let mut cache: KeyedList<u32> = KeyedList::new();
    cache.insert("COM3".to_string(), 3);
    cache.insert("COM4".to_string(), 4);
    cache.insert("COM3".to_string(), 33);
    assert_eq!(cache.len(), 2);
    invalidate_port(&mut cache, "COM3");
    assert!(!cache.contains_key("COM3"));
    assert!(cache.contains_key("COM4"));
    invalidate_port(&mut cache, "COM9");
    assert_eq!(cache.remove("COM4"), Some(4));
    assert_eq!(cache.len(), 0);
}

#[test]
fn non_device_ports() {
    assert!(is_likely_non_device_port("/dev/cu.Bluetooth-Incoming-Port"));
    assert!(is_likely_non_device_port("/dev/cu.DEBUG-CONSOLE"));
    assert!(is_likely_non_device_port("/dev/tty.wchusbserial"));
    assert!(is_likely_non_device_port("/dev/cu.MODEL-B"));
    assert!(!is_likely_non_device_port("/dev/cu.MODEM"));
    assert!(!is_likely_non_device_port("/dev/ttyUSB0"));
    assert!(!is_likely_non_device_port("COM3"));
}

#[test]
fn serial_frames() {
    assert_eq!(encode_frame(&[1, 2, 3]).unwrap(), vec![3, 0, 1, 2, 3]);
    let big = vec![0u8; 300];
    let frame = encode_frame(&big).unwrap();
    assert_eq!(&frame[..2], &[44, 1]);
    assert_eq!(frame_payload_len(frame[0], frame[1]), 300);
    let too_big = vec![0u8; 65536];
    assert_eq!(encode_frame(&too_big).unwrap_err(), "Payload too large for serial frame");
    assert_eq!(classify_frame_length(0, MAX_PAYLOAD_LEN), FrameLength::Empty);
    assert_eq!(classify_frame_length(4097, MAX_PAYLOAD_LEN), FrameLength::TooLarge);
    assert_eq!(classify_frame_length(4096, MAX_PAYLOAD_LEN), FrameLength::Accept(4096));
}

#[test]
fn keyed_list_lookup() {
    let mut list: KeyedList<u8> = KeyedList::new();
    assert_eq!(list.find("x"), None);
    list.insert("x".to_string(), 1);
    list.insert("y".to_string(), 2);
    let i = list.find("y").unwrap();
    assert_eq!(list.entry(i), &("y".to_string(), 2));
    assert!(list.contains_key("x"));
}

#[test]
fn scan_round_keeps_last_status_per_port_sorted_by_name() {
    let mut store = SerialDeviceStore::default();
    upsert_auth(&mut store, "/dev/ttyACM1", true, 1_000);
    let mut open = status("Bravo");
    open.auth_required = false;
    let found = vec![
        ("/dev/ttyACM0".to_string(), status("Zulu")),
        ("/dev/ttyACM1".to_string(), status("Charlie")),
        ("/dev/ttyACM0".to_string(), status("Alpha")),
        ("/dev/ttyACM2".to_string(), open),
    ];
    let devices = scan_round(&store, &found, 2_000, 0);
    let ids: Vec<&str> = devices.iter().map(|d| d.id.as_str()).collect();
    let names: Vec<&str> = devices.iter().map(|d| d.name.as_str()).collect();
    assert_eq!(ids, vec!["/dev/ttyACM0", "/dev/ttyACM2", "/dev/ttyACM1"]);
    assert_eq!(names, vec!["Alpha", "Bravo", "Charlie"]);
    assert!(!devices[0].authenticated);
    assert!(devices[1].authenticated);
    assert!(devices[2].authenticated);
    assert!(devices.iter().all(|d| d.connected && d.transport == "serial"));
    let later = scan_round(&store, &found, 700_000, 0);
    assert!(!later[2].authenticated);
    assert!(scan_round(&store, &Vec::new(), 0, 0).is_empty());
}

#[test]
fn contains_any_matches_runs_of_characters() {
    let patterns = vec!["blue".to_string(), "wch".to_string()];
    assert!(contains_any("/dev/cu.bluetooth", &patterns));
    assert!(contains_any("/dev/cu.wchusbserial", &patterns));
    assert!(!contains_any("/dev/ttyusb0", &patterns));
    assert!(!contains_any("/dev/cu.BLUE", &patterns));
    assert!(contains_any("x", &vec![String::new()]));
    assert!(!contains_any("x", &Vec::new()));
}

#[test]
fn scan_round_ages_devices_and_drops_them_after_the_window() {
    let store = SerialDeviceStore::default();
    let found = vec![("/dev/ttyACM0".to_string(), status("Alpha"))];
    assert_eq!(scan_round(&store, &found, 0, 999_999_999)[0].last_seen_seconds_ago, 0);
    assert_eq!(scan_round(&store, &found, 0, 2_500_000_000)[0].last_seen_seconds_ago, 2);
    assert_eq!(scan_round(&store, &found, 0, 30_000_000_000)[0].last_seen_seconds_ago, 30);
    assert!(scan_round(&store, &found, 0, 30_000_000_001).is_empty());
}

#[test]
fn contains_text_finds_runs_of_characters() {
    assert!(contains_text("/dev/cu.bluetooth", "blue"));
    assert!(contains_text("abc", "abc"));
    assert!(contains_text("abc", ""));
    assert!(contains_text("", ""));
    assert!(!contains_text("ab", "abc"));
    assert!(!contains_text("a-b-c", "abc"));
    assert!(contains_text("débogue", "bog"));
    assert!(!contains_text("aab", "abb"));
}
