use ayphr::device::{DeviceSetupData, State, StoredSetup, StoredValue, DEFAULT_DEVICE_NAME};

fn stored_of(data: &DeviceSetupData) -> StoredSetup {
    data.to_stored()
}

#[test]
fn default_setup_values() {
    let d = DeviceSetupData::default();
    assert_eq!(d.device_name, "");
    assert!(d.auth_required);
    assert!(d.wifi_required);
    assert!(!d.configured);
}

#[test]
fn stored_configuration_loads_back() {
    let data = DeviceSetupData {
        device_name: "Geo".to_string(),
        wifi_ssid: "net".to_string(),
        wifi_password: "pw".to_string(),
        device_password: "dp".to_string(),
        auth_required: true,
        wifi_required: false,
        configured: true,
    };
    let stored = stored_of(&data);
    assert_eq!(stored.configured, StoredValue::Present(1));
    assert_eq!(stored.wifi_required, StoredValue::Present(0));
    assert_eq!(DeviceSetupData::from_stored(stored), data);
}

#[test]
fn missing_and_unreadable_values() {
    let stored = StoredSetup {
        configured: StoredValue::Unreadable,
        device_name: StoredValue::Missing,
        wifi_ssid: StoredValue::Unreadable,
        wifi_password: StoredValue::Missing,
        device_password: StoredValue::Missing,
        auth_required: StoredValue::Unreadable,
        wifi_required: StoredValue::Missing,
    };
    let d = DeviceSetupData::from_stored(stored);
    assert_eq!(d.device_name, DEFAULT_DEVICE_NAME);
    assert_eq!(d.wifi_ssid, "");
    assert!(!d.configured);
    assert!(d.auth_required);
    assert!(!d.wifi_required);
}

#[test]
fn incomplete_configuration_falls_back_to_unconfigured() {
    let stored = StoredSetup {
        configured: StoredValue::Present(1),
        device_name: StoredValue::Present("Geo".to_string()),
        wifi_ssid: StoredValue::Present(String::new()),
        wifi_password: StoredValue::Missing,
        device_password: StoredValue::Present("dp".to_string()),
        auth_required: StoredValue::Present(1),
        wifi_required: StoredValue::Present(1),
    };
    let d = DeviceSetupData::from_stored(stored);
    assert!(!d.configured);
    assert_eq!(d.device_name, "Geo");
    let stored = StoredSetup {
        configured: StoredValue::Present(1),
        device_name: StoredValue::Present("Geo".to_string()),
        wifi_ssid: StoredValue::Present("net".to_string()),
        wifi_password: StoredValue::Missing,
        device_password: StoredValue::Present(String::new()),
        auth_required: StoredValue::Present(2),
        wifi_required: StoredValue::Present(1),
    };
    let d = DeviceSetupData::from_stored(stored);
    assert!(d.configured);
    assert!(!d.auth_required);
}

#[test]
fn session_helpers() {
    let mut state = State::new(DeviceSetupData::default());
    assert!(!state.is_configured());
    assert_eq!(state.device_name_for_advertising(), "Unconfigured Geo");
    state.data.device_name = "Den".to_string();
    assert_eq!(state.device_name_for_advertising(), "Den");
    state.data.wifi_ssid = "net".to_string();
    state.data.wifi_password = "pw".to_string();
    assert_eq!(state.load_wifi_credentials(), ("net".to_string(), "pw".to_string()));
    assert_eq!(state.manufacturer_data(), vec![0x4D, 0x4F, 0]);
    state.data.configured = true;
    assert_eq!(state.manufacturer_data(), vec![0x4D, 0x4F, 1]);
    state.authenticated = true;
    state.reset_authentication();
    assert!(!state.authenticated);
}
