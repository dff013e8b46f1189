//! Opcodes of the request/response protocol spoken between the device and
//! the companion, and the little-endian integer encodings it uses.
use vstd::prelude::*;

verus! {

pub const COMMAND_GET_STATUS: u8 = 0x01;
pub const COMMAND_AUTHENTICATE: u8 = 0x02;
pub const COMMAND_APPLY_SETUP: u8 = 0x03;
pub const COMMAND_RESTART: u8 = 0x04;
pub const COMMAND_FACTORY_RESET: u8 = 0x05;
pub const COMMAND_CHANGE_PASSWORD: u8 = 0x06;
pub const COMMAND_UPDATE_WIFI: u8 = 0x07;
pub const COMMAND_GET_FIRMWARE_INFO: u8 = 0x08;
pub const COMMAND_OTA_BEGIN: u8 = 0x10;
pub const COMMAND_OTA_DATA: u8 = 0x11;
pub const COMMAND_OTA_END: u8 = 0x12;

pub const RESPONSE_STATUS: u8 = 0x81;
pub const RESPONSE_AUTH_OK: u8 = 0x82;
pub const RESPONSE_AUTH_FAILED: u8 = 0x83;
pub const RESPONSE_SETUP_OK: u8 = 0x84;
pub const RESPONSE_SETUP_FAILED: u8 = 0x85;
pub const RESPONSE_RESTART_OK: u8 = 0x86;
pub const RESPONSE_FACTORY_RESET_OK: u8 = 0x87;
pub const RESPONSE_CHANGE_PASSWORD_OK: u8 = 0x88;
pub const RESPONSE_UPDATE_WIFI_OK: u8 = 0x89;
pub const RESPONSE_FIRMWARE_INFO: u8 = 0x8A;
pub const RESPONSE_OTA_BEGIN_OK: u8 = 0x90;
pub const RESPONSE_OTA_DATA_OK: u8 = 0x91;
pub const RESPONSE_OTA_END_OK: u8 = 0x92;
pub const RESPONSE_ERROR: u8 = 0xFF;

/// Firmware version string reported in the firmware-info response.
pub const FIRMWARE_VERSION: &'static str = "0.1.0";
/// Hardware revision reported in the firmware-info response.
pub const HARDWARE_REVISION: &'static str = "rev1";
/// Manufacturer identifier carried in the BLE advertisement.
pub const FIRMWARE_MANUFACTURER_ID: u16 = 0x4F4D;
/// Size of the firmware chunks sent over BLE.
pub const BLE_CHUNK_SIZE: usize = 200;
/// Size of the firmware chunks sent over the serial link.
pub const SERIAL_CHUNK_SIZE: usize = 1024;

/// The byte that encodes a boolean on the wire and in storage.
pub open spec fn spec_flag(value: bool) -> u8 {
    if value { 1 } else { 0 }
}

/// Encodes a boolean as the single byte used on the wire and in storage.
pub fn flag_byte(value: bool) -> (b: u8)
    ensures
        b == spec_flag(value),
{
    if value { 1 } else { 0 }
}

/// The value of four bytes read as a little-endian unsigned integer.
pub open spec fn le_u32(b0: u8, b1: u8, b2: u8, b3: u8) -> int {
    b0 + 256 * b1 + 65536 * b2 + 16777216 * b3
}

/// The four little-endian bytes of `v`.
pub open spec fn le_bytes_u32(v: u32) -> Seq<u8> {
    seq![
        (v % 256) as u8,
        ((v / 256) % 256) as u8,
        ((v / 65536) % 256) as u8,
        ((v / 16777216) % 256) as u8,
    ]
}

/// The two little-endian bytes of `v`.
pub open spec fn le_bytes_u16(v: u16) -> Seq<u8> {
    seq![(v % 256) as u8, ((v / 256) % 256) as u8]
}

/// Reads four bytes as a little-endian `u32`.
pub fn u32_from_le(b0: u8, b1: u8, b2: u8, b3: u8) -> (v: u32)
    ensures
        v == le_u32(b0, b1, b2, b3),
{
    (b0 as u32) + 256 * (b1 as u32) + 65536 * (b2 as u32) + 16777216 * (b3 as u32)
}

/// Appends the four little-endian bytes of `v` to `buf`.
pub fn push_u32_le(buf: &mut Vec<u8>, v: u32)
    ensures
        final(buf)@ == old(buf)@ + le_bytes_u32(v),
{
    buf.push((v % 256) as u8);
    buf.push(((v / 256) % 256) as u8);
    buf.push(((v / 65536) % 256) as u8);
    buf.push(((v / 16777216) % 256) as u8);
    assert(buf@ =~= old(buf)@ + le_bytes_u32(v));
}

/// Appends the two little-endian bytes of `v` to `buf`.
pub fn push_u16_le(buf: &mut Vec<u8>, v: u16)
    ensures
        final(buf)@ == old(buf)@ + le_bytes_u16(v),
{
    buf.push((v % 256) as u8);
    buf.push(((v / 256) % 256) as u8);
    assert(buf@ =~= old(buf)@ + le_bytes_u16(v));
}

/// Appends `bytes` to `buf`.
pub fn extend_bytes(buf: &mut Vec<u8>, bytes: &[u8])
    ensures
        final(buf)@ == old(buf)@ + bytes@,
{
    let ghost before = buf@;
    buf.extend_from_slice(bytes);
    proof {
        assert forall|i: int| 0 <= i < buf@.len() implies #[trigger] buf@[i] == (before
            + bytes@)[i] by {
            if i >= before.len() {
                assert(cloned::<u8>(bytes@[i - before.len()], buf@[i]));
            }
        }
        assert(buf@ =~= before + bytes@);
    }
}

/// Reading back the little-endian bytes of a `u32` gives the value.
pub proof fn lemma_le_u32_roundtrip(v: u32)
    ensures
        le_u32(
            le_bytes_u32(v)[0],
            le_bytes_u32(v)[1],
            le_bytes_u32(v)[2],
            le_bytes_u32(v)[3],
        ) == v,
{
    let b = le_bytes_u32(v);
    assert(b[0] == v % 256);
    assert(b[1] == (v / 256) % 256);
    assert(b[2] == (v / 65536) % 256);
    assert(b[3] == (v / 16777216) % 256);
    assert((v as int) == v % 256 + 256 * ((v / 256) % 256) + 65536 * ((v / 65536) % 256)
        + 16777216 * ((v / 16777216) % 256)) by (nonlinear_arith)
        requires
            0 <= v < 0x1_0000_0000,
    {
        assert(v / 16777216 < 256);
    }
}

} // verus!
