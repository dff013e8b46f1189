use ayphr::errors::DeviceError;
use ayphr::models::{DeviceStatusResponse, SensorTelemetry};
use ayphr::wire::RESPONSE_STATUS;

#[test]
fn device_error_codes() {
    assert_eq!(DeviceError::from_u8(0x01), DeviceError::InvalidCommand);
    assert_eq!(DeviceError::from_u8(0x04), DeviceError::NvsWriteFailed);
    assert_eq!(DeviceError::from_u8(0x42), DeviceError::Unknown);
    for e in [
        DeviceError::InvalidCommand,
        DeviceError::AuthenticationRequired,
        DeviceError::InvalidPayload,
        DeviceError::NvsWriteFailed,
        DeviceError::SensorUnavailable,
        DeviceError::Unknown,
    ] {
        assert_eq!(DeviceError::from_u8(e.code()), e);
    }
    assert_eq!(DeviceError::Unknown.code(), 0xFF);
}

#[test]
fn short_status_parse() {
    let st = DeviceStatusResponse::parse(&[RESPONSE_STATUS, 1, 0, 1, 2, b'h', b'i']).unwrap();
    assert!(st.is_configured && !st.is_authenticated && st.has_wifi);
    assert_eq!(st.device_name, "hi");
    assert_eq!(
        DeviceStatusResponse::parse(&[RESPONSE_STATUS, 1, 0, 1]),
        Err("Invalid status payload or opcode")
    );
    assert_eq!(
        DeviceStatusResponse::parse(&[RESPONSE_STATUS, 1, 0, 1, 3, b'h']),
        Err("Status payload truncated before reading device name")
    );
    assert_eq!(
        DeviceStatusResponse::parse(&[RESPONSE_STATUS, 1, 0, 1, 1, 0x80]),
        Err("Device name contains invalid UTF-8")
    );
}

#[test]
fn telemetry_packets() {
    let t = SensorTelemetry {
        temperature_bits: 21.5f32.to_bits(),
        humidity_bits: 40.25f32.to_bits(),
        pressure_bits: 1013.25f32.to_bits(),
    };
    let bytes = t.to_bytes();
    assert_eq!(&bytes[0..4], &21.5f32.to_le_bytes());
    assert_eq!(&bytes[8..12], &1013.25f32.to_le_bytes());
    assert_eq!(SensorTelemetry::from_bytes(&bytes), Ok(t));
    assert_eq!(SensorTelemetry::from_bytes(&bytes[..11]), Err("Telemetry packet buffer underflow"));
}
