use ayphr::device::{DeviceSetupData, State};
use ayphr::processor::{complete_effect, process_ble_request, process_serial_request, Effect, Step};
use ayphr::requests::{
    auth_reply, authenticate_command, change_password_command, check_reply, opcode_command,
    ota_begin_command, ota_chunk_count, ota_data_command, reply_is, setup_command,
    update_wifi_command, AuthReply,
};
use ayphr::upload::{
    ota_upload_start, ota_upload_step, UploadAction, UploadStage, DEVICE_REJECTED_CHUNK,
    OTA_DATA_REJECTED,
};
use ayphr::wire::{
    RESPONSE_OTA_BEGIN_OK, RESPONSE_OTA_DATA_OK, RESPONSE_OTA_END_OK,
    COMMAND_OTA_END, COMMAND_RESTART, RESPONSE_AUTH_FAILED, RESPONSE_AUTH_OK, RESPONSE_RESTART_OK,
    RESPONSE_SETUP_OK,
};

#[test]
fn setup_command_layout() {
    let cmd = setup_command("n", "ss", "", "p", true, false).unwrap();
    assert_eq!(cmd, vec![0x03, 1, b'n', 2, b's', b's', 0, 1, b'p', 1, 0]);
    let long = "x".repeat(300);
    assert_eq!(
        setup_command("n", &long, "", "p", true, false).unwrap_err(),
        "Field length exceeds max payload limit of 255 bytes"
    );
}

#[test]
fn companion_setup_is_applied_by_device() {
    let cmd = setup_command("Attic", "wlan", "wp", "devpw", true, false).unwrap();
    let mut state = State::new(DeviceSetupData::default());
    match process_ble_request(&mut state, &cmd, 0) {
        Step::Perform(effect) => {
            assert_eq!(complete_effect(&mut state, effect, true), vec![RESPONSE_SETUP_OK]);
        },
        other => panic!("unexpected {:?}", other),
    }
    assert_eq!(
        state.data,
        DeviceSetupData {
            device_name: "Attic".to_string(),
            wifi_ssid: "wlan".to_string(),
            wifi_password: "wp".to_string(),
            device_password: "devpw".to_string(),
            auth_required: true,
            wifi_required: true,
            configured: true,
        }
    );
    // the password the companion sends authenticates the BLE peer
    state.reset_authentication();
    let auth = authenticate_command("devpw").unwrap();
    assert_eq!(process_ble_request(&mut state, &auth, 0), Step::Reply(vec![RESPONSE_AUTH_OK]));
    let auth = authenticate_command("other").unwrap();
    assert_eq!(process_ble_request(&mut state, &auth, 0), Step::Reply(vec![RESPONSE_AUTH_FAILED]));
}

#[test]
fn password_and_wifi_commands_are_understood() {
    let mut state = State::new(DeviceSetupData::default());
    let cmd = change_password_command("old", "fresh").unwrap();
    assert_eq!(cmd, vec![0x06, 3, b'o', b'l', b'd', 5, b'f', b'r', b'e', b's', b'h']);
    match process_serial_request(&mut state, &cmd, 0) {
        Step::Perform(Effect::Persist { data, .. }) => {
            assert_eq!(data.device_password, "fresh");
            assert!(data.auth_required);
        },
        other => panic!("unexpected {:?}", other),
    }
    let cmd = update_wifi_command("lan", "pw").unwrap();
    match process_serial_request(&mut state, &cmd, 0) {
        Step::Perform(Effect::Persist { data, .. }) => {
            assert_eq!(data.wifi_ssid, "lan");
            assert_eq!(data.wifi_password, "pw");
        },
        other => panic!("unexpected {:?}", other),
    }
    assert!(update_wifi_command(&"s".repeat(256), "").is_err());
}

#[test]
fn replies_are_checked() {
    assert!(reply_is(&[RESPONSE_RESTART_OK], RESPONSE_RESTART_OK));
    assert!(!reply_is(&[], RESPONSE_RESTART_OK));
    assert_eq!(check_reply(&[RESPONSE_RESTART_OK, 9], RESPONSE_RESTART_OK, "no"), Ok(()));
    assert_eq!(
        check_reply(&[0xFF], RESPONSE_RESTART_OK, "Device rejected restart command"),
        Err("Device rejected restart command".to_string())
    );
    assert_eq!(auth_reply(&[RESPONSE_AUTH_OK]), AuthReply::Accepted);
    assert_eq!(auth_reply(&[RESPONSE_AUTH_FAILED]), AuthReply::Rejected);
    assert_eq!(auth_reply(&[]), AuthReply::Unexpected);
    assert_eq!(opcode_command(COMMAND_RESTART), vec![COMMAND_RESTART]);
}

#[test]
fn firmware_update_commands() {
    assert_eq!(ota_begin_command(0x0102_0304), vec![0x10, 4, 3, 2, 1]);
    assert_eq!(ota_chunk_count(0, 4), 0);
    assert_eq!(ota_chunk_count(8, 4), 2);
    assert_eq!(ota_chunk_count(9, 4), 3);
    let image: Vec<u8> = (0u8..10).collect();
    assert_eq!(ota_data_command(&image, 0, 4), vec![0x11, 0, 0, 0, 0, 0, 1, 2, 3]);
    assert_eq!(ota_data_command(&image, 2, 4), vec![0x11, 2, 0, 0, 0, 8, 9]);
}

#[test]
fn firmware_chunks_rebuild_image_on_device() {
    let image: Vec<u8> = (0..1000u32).map(|i| (i * 7 % 251) as u8).collect();
    let chunk_size = 64;
    let mut state = State::new(DeviceSetupData::default());
    let mut received = Vec::new();
    match process_ble_request(&mut state, &ota_begin_command(image.len()), 0) {
        Step::Perform(Effect::OtaBegin { total_size }) => assert_eq!(total_size, 1000),
        other => panic!("unexpected {:?}", other),
    }
    for seq in 0..ota_chunk_count(image.len(), chunk_size) {
        match process_ble_request(&mut state, &ota_data_command(&image, seq, chunk_size), 0) {
            Step::Perform(Effect::OtaData { payload }) => received.extend_from_slice(&payload),
            other => panic!("unexpected {:?}", other),
        }
    }
    assert_eq!(received, image);
    assert_eq!(
        process_ble_request(&mut state, &opcode_command(COMMAND_OTA_END), 0),
        Step::Perform(Effect::OtaEnd)
    );
}

#[test]
fn upload_sends_begin_chunks_then_end() {
    let image: Vec<u8> = (0u8..5).collect();
    let (mut upload, first) = ota_upload_start(image.clone(), 2);
    assert_eq!(first, vec![0x10, 5, 0, 0, 0]);
    assert_eq!(upload.total_chunks(), 3);
    assert_eq!(upload.stage(), UploadStage::AwaitBegin);
    let mut sent = Vec::new();
    let mut reply = vec![RESPONSE_OTA_BEGIN_OK];
    loop {
        match ota_upload_step(&mut upload, &reply) {
            UploadAction::Send(next) => {
                reply = vec![if next[0] == COMMAND_OTA_END { RESPONSE_OTA_END_OK } else { RESPONSE_OTA_DATA_OK }];
                sent.push(next);
            },
            UploadAction::Complete => break,
            UploadAction::Rejected { .. } => panic!("no request was refused"),
        }
    }
    assert_eq!(
        sent,
        vec![
            vec![0x11, 0, 0, 0, 0, 0, 1],
            vec![0x11, 1, 0, 0, 0, 2, 3],
            vec![0x11, 2, 0, 0, 0, 4],
            vec![COMMAND_OTA_END],
        ]
    );
    assert_eq!(upload.stage(), UploadStage::Done);
    assert!(!upload.awaiting_reply());
}

#[test]
fn upload_stops_at_first_refusal() {
    let (mut upload, _) = ota_upload_start(vec![1, 2, 3], 1);
    assert!(matches!(ota_upload_step(&mut upload, &[RESPONSE_OTA_BEGIN_OK]), UploadAction::Send(_)));
    assert_eq!(upload.stage(), UploadStage::AwaitChunk(0));
    assert_eq!(
        ota_upload_step(&mut upload, &[0xFF]),
        UploadAction::Rejected { context: OTA_DATA_REJECTED, message: DEVICE_REJECTED_CHUNK }
    );
    assert_eq!(upload.stage(), UploadStage::Failed);

    let (mut empty, _) = ota_upload_start(Vec::new(), 4);
    assert_eq!(ota_upload_step(&mut empty, &[RESPONSE_OTA_BEGIN_OK]), UploadAction::Send(vec![COMMAND_OTA_END]));
    assert_eq!(ota_upload_step(&mut empty, &[]), UploadAction::Rejected {
        context: "OTA end rejected",
        message: "Device rejected OTA end command",
    });
}
