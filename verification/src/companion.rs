//! The companion application's side of the protocol: parsing the device's
//! replies, building its requests, and the connection state it shows.
use vstd::prelude::*;
use vstd::string::*;
use vstd::utf8::*;
use crate::device::StateView;
use crate::fields::{
    field_at, field_encoding, field_error_message, lemma_field_roundtrip, read_string_field, utf8,
    utf8_to_string,
};
use crate::processor::{firmware_info_reply, reported_authenticated, status_reply};
use crate::wire::{
    le_bytes_u32, le_u32, lemma_le_u32_roundtrip, u32_from_le, FIRMWARE_VERSION, HARDWARE_REVISION,
    RESPONSE_FIRMWARE_INFO, RESPONSE_STATUS,
};

verus! {

/// Connection state reported to the user interface.
#[derive(Debug, Clone, PartialEq, Eq)]
pub struct BleConnectionState {
    pub connected: bool,
    pub authenticated: bool,
    pub auth_required: bool,
    pub wifi_required: bool,
    pub setup_complete: bool,
    pub device_name: String,
}

/// The device status, as parsed from a status reply.
#[derive(Debug, Clone, PartialEq, Eq)]
pub struct ParsedStatus {
    pub setup_complete: bool,
    pub authenticated: bool,
    pub auth_required: bool,
    pub wifi_required: bool,
    pub device_name: String,
}

/// Firmware information, as parsed from a firmware-info reply.
#[derive(Debug, Clone, PartialEq, Eq)]
pub struct ParsedFirmwareInfo {
    pub version: String,
    pub hardware_rev: String,
    pub uptime_secs: u32,
}

/// Firmware information reported to the user interface.
#[derive(Debug, Clone, PartialEq, Eq)]
pub struct FirmwareInfoResult {
    pub version: String,
    pub hardware_rev: String,
    pub uptime_secs: u32,
}

/// Mathematical view of `ParsedStatus`.
pub struct StatusView {
    pub setup_complete: bool,
    pub authenticated: bool,
    pub auth_required: bool,
    pub wifi_required: bool,
    pub device_name: Seq<char>,
}

impl View for ParsedStatus {
    type V = StatusView;

    open spec fn view(&self) -> StatusView {
        StatusView {
            setup_complete: self.setup_complete,
            authenticated: self.authenticated,
            auth_required: self.auth_required,
            wifi_required: self.wifi_required,
            device_name: self.device_name@,
        }
    }
}

/// Mathematical view of `ParsedFirmwareInfo`.
pub struct FirmwareInfoView {
    pub version: Seq<char>,
    pub hardware_rev: Seq<char>,
    pub uptime_secs: u32,
}

impl View for ParsedFirmwareInfo {
    type V = FirmwareInfoView;

    open spec fn view(&self) -> FirmwareInfoView {
        FirmwareInfoView {
            version: self.version@,
            hardware_rev: self.hardware_rev@,
            uptime_secs: self.uptime_secs,
        }
    }
}

pub const INVALID_STATUS: &'static str = "Invalid status response payload";
pub const STATUS_NAME_MISSING: &'static str = "Status response is missing device name bytes";
pub const STATUS_NAME_NOT_UTF8: &'static str = "Device name is not valid UTF-8";

/// The status carried by a reply, if it is a well-formed status reply:
/// opcode, four flag bytes (a flag is set when its byte is 1), one byte not
/// read here, the name length and the UTF-8 name.
pub open spec fn status_of_reply(p: Seq<u8>) -> Option<StatusView> {
    if p.len() < 7 || p[0] != RESPONSE_STATUS {
        None
    } else {
        let n = p[6] as int;
        let raw = p.subrange(7, 7 + n);
        if p.len() < 7 + n || !valid_utf8(raw) {
            None
        } else {
            Some(
                StatusView {
                    setup_complete: p[1] == 1,
                    authenticated: p[2] == 1,
                    auth_required: p[3] == 1,
                    wifi_required: p[4] == 1,
                    device_name: decode_utf8(raw),
                },
            )
        }
    }
}

/// Parses the device's reply to a status request.
pub fn parse_status_response(payload: &[u8]) -> (r: Result<ParsedStatus, String>)
    ensures
        r is Ok <==> status_of_reply(payload@) is Some,
        r matches Ok(st) ==> Some(st@) == status_of_reply(payload@),
        (payload@.len() < 7 || payload@[0] != RESPONSE_STATUS) ==> (r matches Err(m) && m@
            == INVALID_STATUS@),
        (payload@.len() >= 7 && payload@[0] == RESPONSE_STATUS && payload@.len() < 7
            + payload@[6]) ==> (r matches Err(m) && m@ == STATUS_NAME_MISSING@),
        (payload@.len() >= 7 && payload@[0] == RESPONSE_STATUS && payload@.len() >= 7
            + payload@[6] && r is Err) ==> (r matches Err(m) && m@ == STATUS_NAME_NOT_UTF8@),
{
    if payload.len() < 7 || payload[0] != RESPONSE_STATUS {
        return Err(String::from_str(INVALID_STATUS));
    }
    let setup_complete = payload[1] == 1;
    let authenticated = payload[2] == 1;
    let auth_required = payload[3] == 1;
    let wifi_required = payload[4] == 1;
    let name_length = payload[6] as usize;
    if payload.len() - 7 < name_length {
        return Err(String::from_str(STATUS_NAME_MISSING));
    }
    let device_name = match utf8_to_string(&payload[7..7 + name_length]) {
        Ok(name) => name,
        Err(_) => return Err(String::from_str(STATUS_NAME_NOT_UTF8)),
    };
    Ok(ParsedStatus { setup_complete, authenticated, auth_required, wifi_required, device_name })
}

pub const INVALID_FIRMWARE_INFO: &'static str = "Invalid firmware info response payload";
pub const VERSION_FIELD_CONTEXT: &'static str = "Failed to read firmware version: ";
pub const HARDWARE_FIELD_CONTEXT: &'static str = "Failed to read hardware revision: ";
pub const UPTIME_MISSING: &'static str = "Firmware info response truncated before uptime";

/// The information carried by a reply, if it is a well-formed
/// firmware-info reply: opcode, version field, hardware revision field,
/// then the uptime as four little-endian bytes.
pub open spec fn firmware_info_of_reply(p: Seq<u8>) -> Option<FirmwareInfoView> {
    if p.len() < 2 || p[0] != RESPONSE_FIRMWARE_INFO {
        None
    } else {
        let (version, c1) = field_at(p, 1);
        let (hardware_rev, c2) = field_at(p, c1);
        if version is None || hardware_rev is None || c2 + 4 > p.len() {
            None
        } else {
            Some(
                FirmwareInfoView {
                    version: version->0,
                    hardware_rev: hardware_rev->0,
                    uptime_secs: le_u32(p[c2], p[c2 + 1], p[c2 + 2], p[c2 + 3]) as u32,
                },
            )
        }
    }
}

/// Parses the device's reply to a firmware-info request.
pub fn parse_firmware_info_response(payload: &[u8]) -> (r: Result<ParsedFirmwareInfo, String>)
    ensures
        r is Ok <==> firmware_info_of_reply(payload@) is Some,
        r matches Ok(info) ==> Some(info@) == firmware_info_of_reply(payload@),
        (payload@.len() < 2 || payload@[0] != RESPONSE_FIRMWARE_INFO) ==> (r matches Err(m) && m@
            == INVALID_FIRMWARE_INFO@),
        (payload@.len() >= 2 && payload@[0] == RESPONSE_FIRMWARE_INFO && field_at(payload@, 1).0
            is None) ==> (r matches Err(m) && m@ == VERSION_FIELD_CONTEXT@ + field_error_message(
            payload@,
            1,
        )),
        (payload@.len() >= 2 && payload@[0] == RESPONSE_FIRMWARE_INFO && field_at(payload@, 1).0
            is Some && field_at(payload@, field_at(payload@, 1).1).0 is None) ==> (r matches Err(m)
            && m@ == HARDWARE_FIELD_CONTEXT@ + field_error_message(
            payload@,
            field_at(payload@, 1).1,
        )),
        (payload@.len() >= 2 && payload@[0] == RESPONSE_FIRMWARE_INFO && field_at(payload@, 1).0
            is Some && field_at(payload@, field_at(payload@, 1).1).0 is Some && field_at(
            payload@,
            field_at(payload@, 1).1,
        ).1 + 4 > payload@.len()) ==> (r matches Err(m) && m@ == UPTIME_MISSING@),
{
    if payload.len() < 2 || payload[0] != RESPONSE_FIRMWARE_INFO {
        return Err(String::from_str(INVALID_FIRMWARE_INFO));
    }
    let mut cursor: usize = 1;
    let version = match read_string_field(payload, &mut cursor) {
        Ok(v) => v,
        Err(e) => return Err(with_context(VERSION_FIELD_CONTEXT, e)),
    };
    let hardware_rev = match read_string_field(payload, &mut cursor) {
        Ok(v) => v,
        Err(e) => return Err(with_context(HARDWARE_FIELD_CONTEXT, e)),
    };
    if cursor > payload.len() || payload.len() - cursor < 4 {
        return Err(String::from_str(UPTIME_MISSING));
    }
    let uptime_secs = u32_from_le(
        payload[cursor],
        payload[cursor + 1],
        payload[cursor + 2],
        payload[cursor + 3],
    );
    Ok(ParsedFirmwareInfo { version, hardware_rev, uptime_secs })
}

/// `context` followed by `message`.
fn with_context(context: &str, message: String) -> (r: String)
    ensures
        r@ == context@ + message@,
        context@.is_prefix_of(r@),
{
    let r = String::from_str(context).concat(message.as_str());
    proof {
        assert(r@.subrange(0, context@.len() as int) =~= context@);
    }
    r
}

/// The error message handed back to the caller; `context` and `prefix`
/// only label the log line that app code writes beside it.
pub fn log_string_error(context: &str, error: &str, prefix: &str) -> (r: String)
    ensures
        r@ == error@,
{
    String::from_str(error)
}

/// The connection state shown for a device with the given status: it counts
/// as connected unless setup is complete and the peer is not authenticated.
pub fn build_connection_state(status: &ParsedStatus) -> (r: BleConnectionState)
    ensures
        r.connected == (!status.setup_complete || status.authenticated),
        r.authenticated == status.authenticated,
        r.auth_required == status.auth_required,
        r.wifi_required == status.wifi_required,
        r.setup_complete == status.setup_complete,
        r.device_name@ == status.device_name@,
{
    BleConnectionState {
        connected: !status.setup_complete || status.authenticated,
        authenticated: status.authenticated,
        auth_required: status.auth_required,
        wifi_required: status.wifi_required,
        setup_complete: status.setup_complete,
        device_name: status.device_name.clone(),
    }
}

/// The connection state shown for a device on the serial link, whose peer
/// is trusted: connected, authenticated, no authentication required.
pub fn serial_connection_state(status: ParsedStatus) -> (r: BleConnectionState)
    ensures
        r.connected,
        r.authenticated,
        !r.auth_required,
        r.wifi_required == status.wifi_required,
        r.setup_complete == status.setup_complete,
        r.device_name@ == status.device_name@,
{
    BleConnectionState {
        connected: true,
        authenticated: true,
        auth_required: false,
        wifi_required: status.wifi_required,
        setup_complete: status.setup_complete,
        device_name: status.device_name,
    }
}

/// The firmware information shown to the user.
pub fn firmware_info_result(info: ParsedFirmwareInfo) -> (r: FirmwareInfoResult)
    ensures
        r.version@ == info.version@,
        r.hardware_rev@ == info.hardware_rev@,
        r.uptime_secs == info.uptime_secs,
{
    FirmwareInfoResult {
        version: info.version,
        hardware_rev: info.hardware_rev,
        uptime_secs: info.uptime_secs,
    }
}

/// The lowercase hexadecimal digit of `n` (below 16).
pub open spec fn hex_digit(n: int) -> char {
    if n < 10 {
        ('0' as int + n) as char
    } else {
        ('a' as int + n - 10) as char
    }
}

/// A byte as two lowercase hexadecimal digits.
pub open spec fn hex_pair(b: u8) -> Seq<char> {
    seq![hex_digit((b / 16) as int), hex_digit((b % 16) as int)]
}

/// Bytes as two-digit lowercase hexadecimal numbers separated by spaces.
pub open spec fn hex_listing(bytes: Seq<u8>) -> Seq<char>
    decreases bytes.len(),
{
    if bytes.len() == 0 {
        seq![]
    } else if bytes.len() == 1 {
        hex_pair(bytes[0])
    } else {
        hex_listing(bytes.drop_last()) + seq![' '] + hex_pair(bytes.last())
    }
}

fn hex_char(n: u8) -> (c: char)
    requires
        n < 16,
    ensures
        c == hex_digit(n as int),
{
    if n < 10 {
        (48u8 + n) as char
    } else {
        (87u8 + n) as char
    }
}

/// Collects characters into a `String` (`Iterator::collect`).
///
/// Trusted: std documents that collecting characters into a `String` yields
/// exactly those characters in order.
#[verifier::external_body]
fn string_from_chars(chars: &Vec<char>) -> (r: String)
    ensures
        r@ == chars@,
{
    chars.iter().collect()
}

/// Formats bytes for logs: two lowercase hexadecimal digits per byte,
/// separated by spaces.
pub fn format_bytes(bytes: &[u8]) -> (r: String)
    ensures
        r@ == hex_listing(bytes@),
{
    let mut out: Vec<char> = Vec::new();
    let mut i: usize = 0;
    while i < bytes.len()
        invariant
            i <= bytes@.len(),
            out@ == hex_listing(bytes@.take(i as int)),
        decreases bytes@.len() - i,
    {
        let b = bytes[i];
        if i > 0 {
            out.push(' ');
        }
        out.push(hex_char(b / 16));
        out.push(hex_char(b % 16));
        proof {
            let t = bytes@.take(i + 1);
            assert(t.drop_last() =~= bytes@.take(i as int));
            assert(t.last() == b);
            if i == 0 {
                assert(out@ =~= hex_pair(b));
            } else {
                assert(out@ =~= hex_listing(bytes@.take(i as int)) + seq![' '] + hex_pair(b));
            }
        }
        i = i + 1;
    }
    assert(bytes@.take(bytes@.len() as int) =~= bytes@);
    string_from_chars(&out)
}

/// A status reply from the device is understood by the companion as the
/// device's status, when the device name fits the reply (255 bytes).
pub proof fn lemma_status_reply_understood(s: StateView, bypass_auth: bool)
    requires
        utf8(s.data.device_name).len() <= 255,
    ensures
        status_of_reply(status_reply(s, bypass_auth)) == Some(
            StatusView {
                setup_complete: s.data.configured,
                authenticated: reported_authenticated(s, bypass_auth),
                auth_required: s.data.auth_required,
                wifi_required: s.data.wifi_required,
                device_name: s.data.device_name,
            },
        ),
{
    let p = status_reply(s, bypass_auth);
    let name = utf8(s.data.device_name);
    let n = name.len() as int;
    assert(name.take(n) =~= name);
    assert(p.subrange(7, 7 + n) =~= name);
    encode_utf8_valid_utf8(s.data.device_name);
    encode_utf8_decode_utf8(s.data.device_name);
}

/// The firmware version and hardware revision are short ASCII strings.
pub proof fn lemma_firmware_strings_fit()
    ensures
        utf8(FIRMWARE_VERSION@).len() == 5,
        utf8(HARDWARE_REVISION@).len() == 4,
{
    reveal_strlit("0.1.0");
    reveal_strlit("rev1");
    assert(is_ascii_chars(FIRMWARE_VERSION@));
    assert(is_ascii_chars(HARDWARE_REVISION@));
    is_ascii_chars_encode_utf8(FIRMWARE_VERSION@);
    is_ascii_chars_encode_utf8(HARDWARE_REVISION@);
}

/// A firmware-info reply from the device is understood by the companion as
/// the device's version, hardware revision and uptime.
pub proof fn lemma_firmware_info_reply_understood(uptime_secs: u32)
    ensures
        firmware_info_of_reply(firmware_info_reply(uptime_secs)) == Some(
            FirmwareInfoView {
                version: FIRMWARE_VERSION@,
                hardware_rev: HARDWARE_REVISION@,
                uptime_secs,
            },
        ),
{
    lemma_firmware_strings_fit();
    let p = firmware_info_reply(uptime_secs);
    let fv = field_encoding(FIRMWARE_VERSION@);
    let fh = field_encoding(HARDWARE_REVISION@);
    let tail = le_bytes_u32(uptime_secs);
    let head = seq![RESPONSE_FIRMWARE_INFO];
    assert(p =~= head + fv + (fh + tail));
    lemma_field_roundtrip(head, FIRMWARE_VERSION@, fh + tail);
    assert(p =~= (head + fv) + fh + tail);
    lemma_field_roundtrip(head + fv, HARDWARE_REVISION@, tail);
    let c2: int = (1 + fv.len() + fh.len()) as int;
    assert(p[c2] == tail[0] && p[c2 + 1] == tail[1] && p[c2 + 2] == tail[2] && p[c2 + 3]
        == tail[3]);
    lemma_le_u32_roundtrip(uptime_secs);
}

} // verus!
