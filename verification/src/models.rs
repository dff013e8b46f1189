//! Messages of the older status format and the sensor telemetry packet.
use vstd::prelude::*;
use vstd::string::*;
use vstd::utf8::*;
use crate::fields::utf8_to_string;
use crate::wire::{le_bytes_u32, le_u32, lemma_le_u32_roundtrip, RESPONSE_STATUS, u32_from_le};

verus! {

/// The device status in the short status format.
#[derive(Debug, Clone, PartialEq, Eq)]
pub struct DeviceStatusResponse {
    pub is_configured: bool,
    pub is_authenticated: bool,
    pub has_wifi: bool,
    pub device_name: String,
}

/// Mathematical view of `DeviceStatusResponse`.
pub struct DeviceStatusView {
    pub is_configured: bool,
    pub is_authenticated: bool,
    pub has_wifi: bool,
    pub device_name: Seq<char>,
}

impl View for DeviceStatusResponse {
    type V = DeviceStatusView;

    open spec fn view(&self) -> DeviceStatusView {
        DeviceStatusView {
            is_configured: self.is_configured,
            is_authenticated: self.is_authenticated,
            has_wifi: self.has_wifi,
            device_name: self.device_name@,
        }
    }
}

pub const INVALID_STATUS_PAYLOAD: &'static str = "Invalid status payload or opcode";
pub const STATUS_TRUNCATED: &'static str = "Status payload truncated before reading device name";
pub const NAME_NOT_UTF8: &'static str = "Device name contains invalid UTF-8";

/// The status carried by a short-format status payload: opcode, three flag
/// bytes (set when 1), the name length and the UTF-8 name.
pub open spec fn short_status_of(p: Seq<u8>) -> Option<DeviceStatusView> {
    if p.len() < 5 || p[0] != RESPONSE_STATUS {
        None
    } else {
        let n = p[4] as int;
        let raw = p.subrange(5, 5 + n);
        if p.len() < 5 + n || !valid_utf8(raw) {
            None
        } else {
            Some(
                DeviceStatusView {
                    is_configured: p[1] == 1,
                    is_authenticated: p[2] == 1,
                    has_wifi: p[3] == 1,
                    device_name: decode_utf8(raw),
                },
            )
        }
    }
}

impl DeviceStatusResponse {
    pub fn parse(payload: &[u8]) -> (r: Result<Self, &'static str>)
        ensures
            r is Ok <==> short_status_of(payload@) is Some,
            r matches Ok(st) ==> Some(st@) == short_status_of(payload@),
            (payload@.len() < 5 || payload@[0] != RESPONSE_STATUS) ==> r == Err::<Self, &'static str>(
                INVALID_STATUS_PAYLOAD,
            ),
            (payload@.len() >= 5 && payload@[0] == RESPONSE_STATUS && payload@.len() < 5
                + payload@[4]) ==> r == Err::<Self, &'static str>(STATUS_TRUNCATED),
            (payload@.len() >= 5 && payload@[0] == RESPONSE_STATUS && payload@.len() >= 5
                + payload@[4] && r is Err) ==> r == Err::<Self, &'static str>(NAME_NOT_UTF8),
    {
        if payload.len() < 5 || payload[0] != RESPONSE_STATUS {
            return Err(INVALID_STATUS_PAYLOAD);
        }
        let is_configured = payload[1] == 1;
        let is_authenticated = payload[2] == 1;
        let has_wifi = payload[3] == 1;
        let name_len = payload[4] as usize;
        if payload.len() - 5 < name_len {
            return Err(STATUS_TRUNCATED);
        }
        let device_name = match utf8_to_string(&payload[5..5 + name_len]) {
            Ok(name) => name,
            Err(_) => return Err(NAME_NOT_UTF8),
        };
        Ok(DeviceStatusResponse { is_configured, is_authenticated, has_wifi, device_name })
    }
}

/// One sensor reading, each quantity carried as the bit pattern of its
/// 32-bit float (temperature in degrees Celsius, relative humidity in
/// percent, pressure in hectopascals).
#[derive(Debug, Clone, Copy, PartialEq, Eq, Structural)]
pub struct SensorTelemetry {
    pub temperature_bits: u32,
    pub humidity_bits: u32,
    pub pressure_bits: u32,
}

/// The telemetry packet: the three quantities, each in four little-endian
/// bytes.
pub open spec fn telemetry_bytes(t: SensorTelemetry) -> Seq<u8> {
    le_bytes_u32(t.temperature_bits) + le_bytes_u32(t.humidity_bits) + le_bytes_u32(
        t.pressure_bits,
    )
}

/// The reading carried by the first twelve bytes of a packet.
pub open spec fn telemetry_of(b: Seq<u8>) -> SensorTelemetry {
    SensorTelemetry {
        temperature_bits: le_u32(b[0], b[1], b[2], b[3]) as u32,
        humidity_bits: le_u32(b[4], b[5], b[6], b[7]) as u32,
        pressure_bits: le_u32(b[8], b[9], b[10], b[11]) as u32,
    }
}

pub const TELEMETRY_UNDERFLOW: &'static str = "Telemetry packet buffer underflow";

fn put_u32(buf: &mut [u8; 12], at: usize, v: u32)
    requires
        at + 4 <= 12,
    ensures
        final(buf)@ == old(buf)@.take(at as int) + le_bytes_u32(v) + old(buf)@.skip(at + 4),
{
    buf[at] = (v % 256) as u8;
    buf[at + 1] = ((v / 256) % 256) as u8;
    buf[at + 2] = ((v / 65536) % 256) as u8;
    buf[at + 3] = ((v / 16777216) % 256) as u8;
    assert(buf@ =~= old(buf)@.take(at as int) + le_bytes_u32(v) + old(buf)@.skip(at + 4));
}

impl SensorTelemetry {
    pub fn to_bytes(&self) -> (r: [u8; 12])
        ensures
            r@ == telemetry_bytes(*self),
    {
        let mut buf = [0u8; 12];
        put_u32(&mut buf, 0, self.temperature_bits);
        put_u32(&mut buf, 4, self.humidity_bits);
        put_u32(&mut buf, 8, self.pressure_bits);
        assert(buf@ =~= telemetry_bytes(*self));
        buf
    }

    pub fn from_bytes(bytes: &[u8]) -> (r: Result<Self, &'static str>)
        ensures
            r is Ok <==> bytes@.len() >= 12,
            r matches Ok(t) ==> t == telemetry_of(bytes@),
            r is Err ==> r == Err::<Self, &'static str>(TELEMETRY_UNDERFLOW),
    {
        if bytes.len() < 12 {
            return Err(TELEMETRY_UNDERFLOW);
        }
        Ok(
            SensorTelemetry {
                temperature_bits: u32_from_le(bytes[0], bytes[1], bytes[2], bytes[3]),
                humidity_bits: u32_from_le(bytes[4], bytes[5], bytes[6], bytes[7]),
                pressure_bits: u32_from_le(bytes[8], bytes[9], bytes[10], bytes[11]),
            },
        )
    }
}

/// A telemetry packet reads back as the reading it was written from.
pub proof fn lemma_telemetry_roundtrip(t: SensorTelemetry)
    ensures
        telemetry_bytes(t).len() == 12,
        telemetry_of(telemetry_bytes(t)) == t,
{
    lemma_le_u32_roundtrip(t.temperature_bits);
    lemma_le_u32_roundtrip(t.humidity_bits);
    lemma_le_u32_roundtrip(t.pressure_bits);
}

} // verus!
