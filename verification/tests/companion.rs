use ayphr::companion::{
    build_connection_state, firmware_info_result, format_bytes, log_string_error,
    parse_firmware_info_response, parse_status_response, serial_connection_state,
    ParsedFirmwareInfo, ParsedStatus,
};
use ayphr::device::{DeviceSetupData, State};
use ayphr::processor::{process_ble_request, process_request, Step};
use ayphr::wire::{COMMAND_GET_FIRMWARE_INFO, COMMAND_GET_STATUS, RESPONSE_FIRMWARE_INFO, RESPONSE_STATUS};

fn status(setup_complete: bool, authenticated: bool) -> ParsedStatus {
    ParsedStatus {
        setup_complete,
        authenticated,
        auth_required: true,
        wifi_required: false,
        device_name: "Geo".to_string(),
    }
}

#[test]
fn parse_status_ok() {
    let payload = [RESPONSE_STATUS, 1, 0, 1, 1, 1, 3, b'G', b'e', b'o', 0xAA];
    let st = parse_status_response(&payload).unwrap();
    assert!(st.setup_complete);
    assert!(!st.authenticated);
    assert!(st.auth_required);
    assert!(st.wifi_required);
    assert_eq!(st.device_name, "Geo");
    // a flag byte other than 1 reads as clear
    let payload = [RESPONSE_STATUS, 2, 1, 0, 0, 0, 0];
    let st = parse_status_response(&payload).unwrap();
    assert!(!st.setup_complete);
    assert!(st.authenticated);
    assert_eq!(st.device_name, "");
}

#[test]
fn parse_status_errors() {
    assert_eq!(
        parse_status_response(&[RESPONSE_STATUS, 1, 1, 1, 1, 1]).unwrap_err(),
        "Invalid status response payload"
    );
    assert_eq!(
        parse_status_response(&[0x00, 1, 1, 1, 1, 1, 0]).unwrap_err(),
        "Invalid status response payload"
    );
    assert_eq!(
        parse_status_response(&[RESPONSE_STATUS, 1, 1, 1, 1, 1, 4, b'a']).unwrap_err(),
        "Status response is missing device name bytes"
    );
    assert_eq!(
        parse_status_response(&[RESPONSE_STATUS, 1, 1, 1, 1, 1, 1, 0xFF]).unwrap_err(),
        "Device name is not valid UTF-8"
    );
}

#[test]
fn parse_firmware_info_ok_and_errors() {
    let payload = [RESPONSE_FIRMWARE_INFO, 2, b'v', b'1', 1, b'r', 0x78, 0x56, 0x34, 0x12];
    let info = parse_firmware_info_response(&payload).unwrap();
    assert_eq!(info.version, "v1");
    assert_eq!(info.hardware_rev, "r");
    assert_eq!(info.uptime_secs, 0x12345678);
    assert_eq!(
        parse_firmware_info_response(&[RESPONSE_FIRMWARE_INFO]).unwrap_err(),
        "Invalid firmware info response payload"
    );
    assert_eq!(
        parse_firmware_info_response(&[RESPONSE_FIRMWARE_INFO, 9, b'v']).unwrap_err(),
        "Failed to read firmware version: payload truncated inside string field"
    );
    assert_eq!(
        parse_firmware_info_response(&[RESPONSE_FIRMWARE_INFO, 1, b'v']).unwrap_err(),
        "Failed to read hardware revision: payload truncated at string field"
    );
    assert_eq!(
        parse_firmware_info_response(&[RESPONSE_FIRMWARE_INFO, 1, b'v', 0, 1, 2]).unwrap_err(),
        "Firmware info response truncated before uptime"
    );
    let reason = String::from_utf8(vec![0xff]).unwrap_err().to_string();
    assert_eq!(
        parse_firmware_info_response(&[RESPONSE_FIRMWARE_INFO, 1, b'v', 1, 0xff]).unwrap_err(),
        format!("Failed to read hardware revision: invalid UTF-8: {}", reason)
    );
}

#[test]
fn device_status_reply_is_understood() {
    let mut state = State::new(DeviceSetupData::default());
    state.data.device_name = "Porch".to_string();
    state.data.configured = true;
    state.data.device_password = "pw".to_string();
    state.data.wifi_required = false;
    match process_ble_request(&mut state, &[COMMAND_GET_STATUS], 0) {
        Step::Reply(reply) => {
            let st = parse_status_response(&reply).unwrap();
            assert_eq!(
                st,
                ParsedStatus {
                    setup_complete: true,
                    authenticated: false,
                    auth_required: true,
                    wifi_required: false,
                    device_name: "Porch".to_string(),
                }
            );
        },
        _ => panic!("expected a reply"),
    }
}

#[test]
fn device_firmware_info_is_understood() {
    let mut state = State::new(DeviceSetupData::default());
    match process_request(&mut state, &[COMMAND_GET_FIRMWARE_INFO], true, 3600) {
        Step::Reply(reply) => {
            let info = parse_firmware_info_response(&reply).unwrap();
            assert_eq!(
                info,
                ParsedFirmwareInfo {
                    version: "0.1.0".to_string(),
                    hardware_rev: "rev1".to_string(),
                    uptime_secs: 3600,
                }
            );
            let shown = firmware_info_result(info);
            assert_eq!(shown.uptime_secs, 3600);
            assert_eq!(shown.version, "0.1.0");
        },
        _ => panic!("expected a reply"),
    }
}

#[test]
fn connection_states() {
    let s = build_connection_state(&status(false, false));
    assert!(s.connected);
    let s = build_connection_state(&status(true, false));
    assert!(!s.connected);
    assert_eq!(s.device_name, "Geo");
    let s = build_connection_state(&status(true, true));
    assert!(s.connected && s.authenticated && s.setup_complete && s.auth_required);
    let s = serial_connection_state(status(true, false));
    assert!(s.connected && s.authenticated && !s.auth_required && s.setup_complete);
}

#[test]
fn format_bytes_hex() {
    assert_eq!(format_bytes(&[]), "");
    assert_eq!(format_bytes(&[0x0a]), "0a");
    assert_eq!(format_bytes(&[0x00, 0xff, 0x81, 0x3c]), "00 ff 81 3c");
}

#[test]
fn log_string_error_returns_message() {
    assert_eq!(log_string_error("setup rejected", "Device rejected setup payload", "shared"), "Device rejected setup payload");
}
