use ayphr::device::{DeviceSetupData, State};
use ayphr::fields::append_field;
use ayphr::processor::{
    complete_effect, handle_apply_setup, process_ble_request, process_request, process_serial_request, Effect, Step,
};
use ayphr::wire::{
    COMMAND_APPLY_SETUP, COMMAND_AUTHENTICATE, COMMAND_CHANGE_PASSWORD, COMMAND_FACTORY_RESET,
    COMMAND_GET_FIRMWARE_INFO, COMMAND_GET_STATUS, COMMAND_OTA_BEGIN, COMMAND_OTA_DATA,
    COMMAND_OTA_END, COMMAND_RESTART, COMMAND_UPDATE_WIFI, RESPONSE_AUTH_FAILED, RESPONSE_AUTH_OK,
    RESPONSE_CHANGE_PASSWORD_OK, RESPONSE_ERROR, RESPONSE_FACTORY_RESET_OK, RESPONSE_FIRMWARE_INFO,
    RESPONSE_OTA_BEGIN_OK, RESPONSE_OTA_END_OK, RESPONSE_RESTART_OK, RESPONSE_SETUP_FAILED,
    RESPONSE_SETUP_OK, RESPONSE_STATUS, RESPONSE_UPDATE_WIFI_OK,
};

fn configured_state() -> State {
    State {
        data: DeviceSetupData {
            device_name: "Kitchen".to_string(),
            wifi_ssid: "home".to_string(),
            wifi_password: "wpass".to_string(),
            device_password: "secret".to_string(),
            auth_required: true,
            wifi_required: true,
            configured: true,
        },
        authenticated: false,
    }
}

fn field_request(command: u8, fields: &[&str]) -> Vec<u8> {
    let mut buf = vec![command];
    for f in fields {
        append_field(&mut buf, f).unwrap();
    }
    buf
}

#[test]
fn empty_and_unknown_requests_are_errors() {
    let mut state = configured_state();
    assert_eq!(process_ble_request(&mut state, &[], 0), Step::Reply(vec![RESPONSE_ERROR]));
    assert_eq!(process_ble_request(&mut state, &[0x7E], 0), Step::Reply(vec![RESPONSE_ERROR]));
}

#[test]
fn status_reply_layout() {
    let mut state = configured_state();
    let step = process_ble_request(&mut state, &[COMMAND_GET_STATUS], 0);
    let mut expected = vec![RESPONSE_STATUS, 1, 0, 1, 1, 1, 7];
    expected.extend_from_slice(b"Kitchen");
    assert_eq!(step, Step::Reply(expected));
    let step = process_serial_request(&mut state, &[COMMAND_GET_STATUS], 0);
    match step {
        Step::Reply(r) => assert_eq!(r[2], 1),
        _ => panic!("expected a reply"),
    }
}

#[test]
fn status_name_is_cut_at_255_bytes() {
    let mut state = State::new(DeviceSetupData::default());
    state.data.device_name = "n".repeat(300);
    match process_ble_request(&mut state, &[COMMAND_GET_STATUS], 0) {
        Step::Reply(r) => {
            assert_eq!(r[6], 255);
            assert_eq!(r.len(), 7 + 255);
            // unconfigured: reported authenticated, no WiFi network known
            assert_eq!(r[2], 1);
            assert_eq!(r[5], 0);
        },
        _ => panic!("expected a reply"),
    }
}

#[test]
fn authenticate_with_right_and_wrong_password() {
    let mut state = configured_state();
    let wrong = field_request(COMMAND_AUTHENTICATE, &["nope"]);
    assert_eq!(process_ble_request(&mut state, &wrong, 0), Step::Reply(vec![RESPONSE_AUTH_FAILED]));
    assert!(!state.authenticated);
    let right = field_request(COMMAND_AUTHENTICATE, &["secret"]);
    assert_eq!(process_ble_request(&mut state, &right, 0), Step::Reply(vec![RESPONSE_AUTH_OK]));
    assert!(state.authenticated);
    // a wrong password afterwards revokes the authentication
    assert_eq!(process_ble_request(&mut state, &wrong, 0), Step::Reply(vec![RESPONSE_AUTH_FAILED]));
    assert!(!state.authenticated);
}

#[test]
fn authenticate_edge_cases() {
    let mut state = configured_state();
    // missing field
    assert_eq!(
        process_ble_request(&mut state, &[COMMAND_AUTHENTICATE], 0),
        Step::Reply(vec![RESPONSE_ERROR])
    );
    // serial link: always accepted, state untouched
    assert_eq!(
        process_serial_request(&mut state, &[COMMAND_AUTHENTICATE], 0),
        Step::Reply(vec![RESPONSE_AUTH_OK])
    );
    assert!(!state.authenticated);
    // unconfigured device: any password
    let mut fresh = State::new(DeviceSetupData::default());
    let req = field_request(COMMAND_AUTHENTICATE, &["anything"]);
    assert_eq!(process_ble_request(&mut fresh, &req, 0), Step::Reply(vec![RESPONSE_AUTH_OK]));
    assert!(fresh.authenticated);
    // empty stored password never matches
    let mut state = configured_state();
    state.data.device_password = String::new();
    let req = field_request(COMMAND_AUTHENTICATE, &[""]);
    assert_eq!(process_ble_request(&mut state, &req, 0), Step::Reply(vec![RESPONSE_AUTH_FAILED]));
}

#[test]
fn guarded_commands_refused_without_authentication() {
    for command in [
        COMMAND_APPLY_SETUP,
        COMMAND_RESTART,
        COMMAND_FACTORY_RESET,
        COMMAND_CHANGE_PASSWORD,
        COMMAND_UPDATE_WIFI,
    ] {
        let mut state = configured_state();
        assert_eq!(
            process_ble_request(&mut state, &[command], 0),
            Step::Reply(vec![RESPONSE_AUTH_FAILED])
        );
        assert_eq!(state, configured_state());
    }
}

#[test]
fn setup_on_fresh_device() {
    let mut state = State::new(DeviceSetupData::default());
    let mut req = field_request(COMMAND_APPLY_SETUP, &["Geo", "net", "np", "dp"]);
    req.push(1);
    req.push(0);
    let step = process_ble_request(&mut state, &req, 0);
    let expected_data = DeviceSetupData {
        device_name: "Geo".to_string(),
        wifi_ssid: "net".to_string(),
        wifi_password: "np".to_string(),
        device_password: "dp".to_string(),
        auth_required: true,
        wifi_required: true,
        configured: true,
    };
    match step {
        Step::Perform(effect) => {
            assert_eq!(
                effect,
                Effect::Persist {
                    data: expected_data.clone(),
                    authenticated: Some(true),
                    ok: RESPONSE_SETUP_OK,
                    failed: RESPONSE_SETUP_FAILED,
                }
            );
            let reply = complete_effect(&mut state, effect, true);
            assert_eq!(reply, vec![RESPONSE_SETUP_OK]);
            assert_eq!(state.data, expected_data);
            assert!(state.authenticated);
        },
        other => panic!("unexpected {:?}", other),
    }
}

#[test]
fn setup_defaults_and_rejections() {
    // flags missing: authentication required, WiFi not skipped
    let mut state = State::new(DeviceSetupData::default());
    let req = field_request(COMMAND_APPLY_SETUP, &["", "net", "", "pw"]);
    match process_serial_request(&mut state, &req, 0) {
        Step::Perform(Effect::Persist { data, authenticated, .. }) => {
            assert!(data.auth_required);
            assert!(data.wifi_required);
            assert_eq!(data.device_name, "");
            assert_eq!(authenticated, Some(false));
        },
        other => panic!("unexpected {:?}", other),
    }
    // no network name field at all
    let req = field_request(COMMAND_APPLY_SETUP, &["name"]);
    assert_eq!(
        process_serial_request(&mut state, &req, 0),
        Step::Reply(vec![RESPONSE_SETUP_FAILED])
    );
    // authentication required but no device password
    let mut req = field_request(COMMAND_APPLY_SETUP, &["", "net", "", ""]);
    req.push(1);
    req.push(0);
    assert_eq!(
        process_serial_request(&mut state, &req, 0),
        Step::Reply(vec![RESPONSE_SETUP_FAILED])
    );
    // WiFi not skipped but empty network name
    let mut req = field_request(COMMAND_APPLY_SETUP, &["", "", "", "pw"]);
    req.push(1);
    req.push(0);
    assert_eq!(
        process_serial_request(&mut state, &req, 0),
        Step::Reply(vec![RESPONSE_SETUP_FAILED])
    );
    // WiFi skipped and no password required: accepted
    let mut req = field_request(COMMAND_APPLY_SETUP, &["", "", "", ""]);
    req.push(0);
    req.push(1);
    match process_serial_request(&mut state, &req, 0) {
        Step::Perform(Effect::Persist { data, .. }) => {
            assert!(!data.auth_required);
            assert!(!data.wifi_required);
            assert!(data.configured);
        },
        other => panic!("unexpected {:?}", other),
    }
}

#[test]
fn failed_store_keeps_state() {
    let mut state = State::new(DeviceSetupData::default());
    let mut req = field_request(COMMAND_APPLY_SETUP, &["Geo", "net", "np", "dp"]);
    req.push(1);
    req.push(0);
    match process_ble_request(&mut state, &req, 0) {
        Step::Perform(effect) => {
            assert_eq!(complete_effect(&mut state, effect, false), vec![RESPONSE_SETUP_FAILED]);
            assert_eq!(state, State::new(DeviceSetupData::default()));
        },
        other => panic!("unexpected {:?}", other),
    }
}

#[test]
fn restart_and_factory_reset() {
    let mut state = configured_state();
    state.authenticated = true;
    assert_eq!(
        process_ble_request(&mut state, &[COMMAND_RESTART], 0),
        Step::ReplyThenRestart(vec![RESPONSE_RESTART_OK])
    );
    match process_ble_request(&mut state, &[COMMAND_FACTORY_RESET], 0) {
        Step::Perform(effect) => {
            assert_eq!(complete_effect(&mut state, effect, true), vec![RESPONSE_FACTORY_RESET_OK]);
            assert_eq!(state, State::new(DeviceSetupData::default()));
        },
        other => panic!("unexpected {:?}", other),
    }
}

#[test]
fn change_password_rules() {
    let mut state = configured_state();
    state.authenticated = true;
    let wrong = field_request(COMMAND_CHANGE_PASSWORD, &["bad", "new"]);
    assert_eq!(process_ble_request(&mut state, &wrong, 0), Step::Reply(vec![RESPONSE_AUTH_FAILED]));
    let empty_new = field_request(COMMAND_CHANGE_PASSWORD, &["secret", ""]);
    assert_eq!(process_ble_request(&mut state, &empty_new, 0), Step::Reply(vec![RESPONSE_ERROR]));
    let right = field_request(COMMAND_CHANGE_PASSWORD, &["secret", "new"]);
    match process_ble_request(&mut state, &right, 0) {
        Step::Perform(effect) => {
            assert_eq!(complete_effect(&mut state, effect, true), vec![RESPONSE_CHANGE_PASSWORD_OK]);
            assert_eq!(state.data.device_password, "new");
            assert!(state.data.auth_required);
            assert!(state.authenticated);
        },
        other => panic!("unexpected {:?}", other),
    }
    // the serial link does not check the current password
    let mut state = configured_state();
    match process_serial_request(&mut state, &wrong, 0) {
        Step::Perform(Effect::Persist { data, ok, .. }) => {
            assert_eq!(data.device_password, "new");
            assert_eq!(ok, RESPONSE_CHANGE_PASSWORD_OK);
        },
        other => panic!("unexpected {:?}", other),
    }
}

#[test]
fn update_wifi_rules() {
    let mut state = configured_state();
    state.authenticated = true;
    let empty = field_request(COMMAND_UPDATE_WIFI, &[""]);
    assert_eq!(process_ble_request(&mut state, &empty, 0), Step::Reply(vec![RESPONSE_ERROR]));
    let only_ssid = field_request(COMMAND_UPDATE_WIFI, &["office"]);
    match process_ble_request(&mut state, &only_ssid, 0) {
        Step::Perform(effect) => {
            assert_eq!(complete_effect(&mut state, effect, false), vec![RESPONSE_ERROR]);
            assert_eq!(state.data.wifi_ssid, "home");
        },
        other => panic!("unexpected {:?}", other),
    }
    match process_ble_request(&mut state, &only_ssid, 0) {
        Step::Perform(effect) => {
            assert_eq!(complete_effect(&mut state, effect, true), vec![RESPONSE_UPDATE_WIFI_OK]);
            assert_eq!(state.data.wifi_ssid, "office");
            assert_eq!(state.data.wifi_password, "");
            assert!(state.data.wifi_required);
        },
        other => panic!("unexpected {:?}", other),
    }
}

#[test]
fn firmware_info_reply() {
    let mut state = configured_state();
    let step = process_request(&mut state, &[COMMAND_GET_FIRMWARE_INFO], false, 0x01020304);
    let mut expected = vec![RESPONSE_FIRMWARE_INFO, 5];
    expected.extend_from_slice(b"0.1.0");
    expected.push(4);
    expected.extend_from_slice(b"rev1");
    expected.extend_from_slice(&[4, 3, 2, 1]);
    assert_eq!(step, Step::Reply(expected));
}

#[test]
fn firmware_update_requests() {
    let mut state = configured_state();
    // not gated by authentication
    assert_eq!(
        process_ble_request(&mut state, &[COMMAND_OTA_BEGIN, 0x10, 0x27, 0, 0], 0),
        Step::Perform(Effect::OtaBegin { total_size: 10000 })
    );
    assert_eq!(
        process_ble_request(&mut state, &[COMMAND_OTA_BEGIN, 1, 2, 3], 0),
        Step::Reply(vec![RESPONSE_ERROR])
    );
    assert_eq!(
        process_ble_request(&mut state, &[COMMAND_OTA_DATA, 0, 0, 0, 0, 7, 8, 9], 0),
        Step::Perform(Effect::OtaData { payload: vec![7, 8, 9] })
    );
    assert_eq!(
        process_ble_request(&mut state, &[COMMAND_OTA_DATA, 0, 0, 0], 0),
        Step::Reply(vec![RESPONSE_ERROR])
    );
    assert_eq!(process_ble_request(&mut state, &[COMMAND_OTA_END], 0), Step::Perform(Effect::OtaEnd));
    assert_eq!(
        complete_effect(&mut state, Effect::OtaBegin { total_size: 1 }, true),
        vec![RESPONSE_OTA_BEGIN_OK]
    );
    assert_eq!(
        complete_effect(&mut state, Effect::OtaData { payload: vec![] }, false),
        vec![RESPONSE_ERROR]
    );
    assert_eq!(complete_effect(&mut state, Effect::OtaEnd, true), vec![RESPONSE_OTA_END_OK]);
    assert_eq!(state, configured_state());
}

#[test]
fn setup_handler_over_serial_keeps_name_and_does_not_authenticate() {
    let mut state = configured_state();
    let mut req = field_request(COMMAND_APPLY_SETUP, &["", "", "", ""]);
    req.push(0);
    req.push(1);
    let step = handle_apply_setup(&state, &req, true);
    let expected_data = DeviceSetupData {
        device_name: "Kitchen".to_string(),
        wifi_ssid: String::new(),
        wifi_password: String::new(),
        device_password: String::new(),
        auth_required: false,
        wifi_required: false,
        configured: true,
    };
    match step {
        Step::Perform(effect) => {
            let reply = complete_effect(&mut state, effect, true);
            assert_eq!(reply, vec![RESPONSE_SETUP_OK]);
            assert_eq!(state.data, expected_data);
            assert!(!state.authenticated);
        },
        other => panic!("unexpected {:?}", other),
    }
}
