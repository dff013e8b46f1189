use ayphr::ble_ids::{
    parse_uuid, select_firmware_endpoints, uuid_parse_outcome, FIRMWARE_RX_CHARACTERISTIC_UUID, FIRMWARE_SERVICE_UUID,
    FIRMWARE_TX_CHARACTERISTIC_UUID, MISSING_FIRMWARE_SERVICE, MISSING_RX_CHARACTERISTIC,
    MISSING_TX_CHARACTERISTIC,
};
use ayphr::ota::{begin, end, write_data, OtaSession, OTA_NOT_INITIALIZED, OTA_VALIDATION_FAILED, OTA_WRITE_FAILED};
use ayphr::ble_link::{after_discovery_attempt, is_wanted_peripheral, AttemptOutcome, DiscoveryAction};
use ayphr::wifi::{
    auth_method_for, client_credentials, reconnect_after_disconnect, reconnect_first_action, should_connect,
    ReconnectAction, WifiAuth, WifiCredentialError,
};

#[test]
fn ota_session_flow() {
    let mut session = OtaSession::new();
    assert_eq!(write_data(&mut session, &[1, 2], true), Err(OTA_NOT_INITIALIZED));
    assert_eq!(end(&mut session, true), Err(OTA_NOT_INITIALIZED));
    begin(&mut session, 10);
    assert!(session.is_active());
    assert_eq!(session.bytes_written(), 0);
    assert_eq!(write_data(&mut session, &[1, 2, 3], true), Ok(()));
    assert_eq!(write_data(&mut session, &[4], false), Err(OTA_WRITE_FAILED));
    assert_eq!(session.bytes_written(), 3);
    assert_eq!(session.total_size(), 10);
    assert_eq!(end(&mut session, true), Ok(3));
    assert!(!session.is_active());
    begin(&mut session, 5);
    assert_eq!(end(&mut session, false), Err(OTA_VALIDATION_FAILED));
    assert!(!session.is_active());
}

#[test]
fn wifi_decisions() {
    assert!(!should_connect(""));
    assert!(should_connect("net"));
    assert_eq!(auth_method_for(""), WifiAuth::Open);
    assert_eq!(auth_method_for("pw"), WifiAuth::Wpa2Personal);
    let (ssid, pass) = client_credentials("home", "secret").unwrap();
    assert_eq!(ssid.as_str(), "home");
    assert_eq!(pass.as_str(), "secret");
    assert_eq!(client_credentials(&"s".repeat(33), "").unwrap_err(), WifiCredentialError::SsidTooLong);
    assert_eq!(client_credentials(&"s".repeat(32), &"p".repeat(65)).unwrap_err(), WifiCredentialError::PasswordTooLong);
    assert_eq!(WifiCredentialError::SsidTooLong.message(), "WiFi SSID too long (max 32 bytes)");
}

#[test]
fn service_uuids_parse() {
    let id = parse_uuid(FIRMWARE_SERVICE_UUID).unwrap();
    assert_eq!(id, 0x01171718_ce62_6a9a_5541_b839b04a7bd1);
    assert_eq!(uuid::Uuid::from_u128(id).to_string(), FIRMWARE_SERVICE_UUID);
    let err = parse_uuid("not-a-uuid").unwrap_err();
    assert_eq!(err, "Invalid UUID 'not-a-uuid': invalid character: found `n` at 0");
    assert_eq!(uuid_parse_outcome("x", Ok(7)), Ok(7));
    assert_eq!(uuid_parse_outcome("x", Err("why".to_string())), Err("Invalid UUID 'x': why".to_string()));
}

#[test]
fn ota_writes_accumulate_and_stop_after_end() {
    let mut session = OtaSession::new();
    begin(&mut session, 6);
    assert_eq!(write_data(&mut session, &[1, 2], true), Ok(()));
    assert_eq!(write_data(&mut session, &[3, 4, 5], true), Ok(()));
    assert_eq!(write_data(&mut session, &[9], false), Err(OTA_WRITE_FAILED));
    assert_eq!(session.bytes_written(), 5);
    assert_eq!(end(&mut session, true), Ok(5));
    assert_eq!(write_data(&mut session, &[6], true), Err(OTA_NOT_INITIALIZED));
    assert_eq!(session.bytes_written(), 5);
}

#[test]
fn firmware_endpoints_selected_by_identifier() {
    let service = parse_uuid(FIRMWARE_SERVICE_UUID).unwrap();
    let rx = parse_uuid(FIRMWARE_RX_CHARACTERISTIC_UUID).unwrap();
    let tx = parse_uuid(FIRMWARE_TX_CHARACTERISTIC_UUID).unwrap();
    let services = vec![7, service];
    let characteristics = vec![tx, 5, rx, tx];
    assert_eq!(select_firmware_endpoints(&services, &characteristics, service, rx, tx), Ok((2, 0)));
    assert_eq!(
        select_firmware_endpoints(&vec![7], &characteristics, service, rx, tx),
        Err(MISSING_FIRMWARE_SERVICE)
    );
    assert_eq!(
        select_firmware_endpoints(&services, &vec![tx], service, rx, tx),
        Err(MISSING_RX_CHARACTERISTIC)
    );
    assert_eq!(
        select_firmware_endpoints(&services, &vec![rx], service, rx, tx),
        Err(MISSING_TX_CHARACTERISTIC)
    );
}

#[test]
fn wifi_reconnect_decisions() {
    assert_eq!(reconnect_first_action("", true, true), ReconnectAction::Skip);
    assert_eq!(reconnect_first_action("home", true, true), ReconnectAction::Disconnect);
    assert_eq!(reconnect_first_action("home", false, false), ReconnectAction::Start);
    assert_eq!(reconnect_first_action("home", true, false), ReconnectAction::Connect);
    assert_eq!(reconnect_after_disconnect(true), ReconnectAction::Connect);
    assert_eq!(reconnect_after_disconnect(false), ReconnectAction::Start);
}

#[test]
fn discovery_gives_up_after_five_attempts() {
    for attempt in 1..5 {
        assert_eq!(after_discovery_attempt(attempt, AttemptOutcome::NotFound), DiscoveryAction::RetryAfterDelay);
        assert_eq!(
            after_discovery_attempt(attempt, AttemptOutcome::AdapterUnavailable),
            DiscoveryAction::RetryAfterDelay
        );
    }
    assert_eq!(after_discovery_attempt(5, AttemptOutcome::EnumerationFailed), DiscoveryAction::GiveUpAfterDelay);
    assert_eq!(after_discovery_attempt(5, AttemptOutcome::Found), DiscoveryAction::UseFound);
    assert_eq!(after_discovery_attempt(1, AttemptOutcome::Found), DiscoveryAction::UseFound);
    assert!(is_wanted_peripheral(true, "hci0/dev_AA", "hci0/dev_AA"));
    assert!(!is_wanted_peripheral(false, "hci0/dev_AA", "hci0/dev_AA"));
    assert!(!is_wanted_peripheral(true, "hci0/dev_AB", "hci0/dev_AA"));
}
