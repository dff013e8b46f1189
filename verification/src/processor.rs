//! The device's request processor: turns a request frame received over BLE
//! or the serial link into a reply, a state change and, where the request
//! needs outside work (storage, firmware flashing, a restart), the effect
//! the firmware must carry out before the reply is final.
use vstd::prelude::*;
use vstd::string::*;
use crate::device::{default_setup, setup_complete, DeviceSetupData, SetupView, State, StateView};
use crate::fields::{field_at, read_field, utf8, opt_view};
use crate::wire::{
    extend_bytes, flag_byte, le_bytes_u32, le_u32, push_u32_le, spec_flag, u32_from_le,
    COMMAND_APPLY_SETUP, COMMAND_AUTHENTICATE, COMMAND_CHANGE_PASSWORD, COMMAND_FACTORY_RESET,
    COMMAND_GET_FIRMWARE_INFO, COMMAND_GET_STATUS, COMMAND_OTA_BEGIN, COMMAND_OTA_DATA,
    COMMAND_OTA_END, COMMAND_RESTART, COMMAND_UPDATE_WIFI, FIRMWARE_VERSION, HARDWARE_REVISION,
    RESPONSE_AUTH_FAILED, RESPONSE_AUTH_OK, RESPONSE_CHANGE_PASSWORD_OK, RESPONSE_ERROR,
    RESPONSE_FACTORY_RESET_OK, RESPONSE_FIRMWARE_INFO, RESPONSE_OTA_BEGIN_OK, RESPONSE_OTA_DATA_OK,
    RESPONSE_OTA_END_OK, RESPONSE_RESTART_OK, RESPONSE_SETUP_FAILED, RESPONSE_SETUP_OK,
    RESPONSE_STATUS, RESPONSE_UPDATE_WIFI_OK,
};

verus! {

/// Outside work a request calls for before it can be answered.
#[derive(Debug, PartialEq, Eq)]
pub enum Effect {
    /// Store `data`; on success it becomes the configuration (and, when
    /// given, `authenticated` the peer's authentication) and the reply is
    /// `ok`, otherwise the reply is `failed`.
    Persist { data: DeviceSetupData, authenticated: Option<bool>, ok: u8, failed: u8 },
    /// Start a firmware update of the given size.
    OtaBegin { total_size: usize },
    /// Write the next piece of the firmware image.
    OtaData { payload: Vec<u8> },
    /// Finish the firmware update (the device then reboots).
    OtaEnd,
}

/// What the firmware does with a request.
#[derive(Debug, PartialEq, Eq)]
pub enum Step {
    /// Send this reply.
    Reply(Vec<u8>),
    /// Send this reply, then restart the device.
    ReplyThenRestart(Vec<u8>),
    /// Carry out the effect, then hand its outcome to `complete_effect`.
    Perform(Effect),
}

/// Mathematical view of `Effect`.
pub enum EffectView {
    Persist { data: SetupView, authenticated: Option<bool>, ok: u8, failed: u8 },
    OtaBegin { total_size: int },
    OtaData { payload: Seq<u8> },
    OtaEnd,
}

/// Mathematical view of `Step`.
pub enum StepView {
    Reply(Seq<u8>),
    ReplyThenRestart(Seq<u8>),
    Perform(EffectView),
}

impl View for Effect {
    type V = EffectView;

    open spec fn view(&self) -> EffectView {
        match self {
            Effect::Persist { data, authenticated, ok, failed } => EffectView::Persist {
                data: data@,
                authenticated: *authenticated,
                ok: *ok,
                failed: *failed,
            },
            Effect::OtaBegin { total_size } => EffectView::OtaBegin { total_size: *total_size as int },
            Effect::OtaData { payload } => EffectView::OtaData { payload: payload@ },
            Effect::OtaEnd => EffectView::OtaEnd,
        }
    }
}

impl View for Step {
    type V = StepView;

    open spec fn view(&self) -> StepView {
        match self {
            Step::Reply(r) => StepView::Reply(r@),
            Step::ReplyThenRestart(r) => StepView::ReplyThenRestart(r@),
            Step::Perform(e) => StepView::Perform(e@),
        }
    }
}

/// A one-byte reply.
pub open spec fn reply(code: u8) -> StepView {
    StepView::Reply(seq![code])
}

/// Requests that change the device are refused when it is configured, the
/// request came over BLE and the BLE peer has not authenticated.
pub open spec fn gate_refuses(s: StateView, bypass_auth: bool) -> bool {
    !bypass_auth && s.data.configured && !s.authenticated
}

/// Whether the status reply reports the requester as authenticated.
pub open spec fn reported_authenticated(s: StateView, bypass_auth: bool) -> bool {
    !s.data.configured || bypass_auth || !s.data.auth_required || s.authenticated
}

/// The number of name bytes carried in the status reply.
pub open spec fn status_name_len(name: Seq<char>) -> int {
    if utf8(name).len() < 255 { utf8(name).len() as int } else { 255 }
}

/// The status reply: opcode, configured, authenticated, authentication
/// required, WiFi required, WiFi network known, name length, name bytes
/// (cut at 255 bytes).
pub open spec fn status_reply(s: StateView, bypass_auth: bool) -> Seq<u8> {
    let n = status_name_len(s.data.device_name);
    seq![
        RESPONSE_STATUS,
        spec_flag(s.data.configured),
        spec_flag(reported_authenticated(s, bypass_auth)),
        spec_flag(s.data.auth_required),
        spec_flag(s.data.wifi_required),
        spec_flag(s.data.wifi_ssid.len() > 0),
        n as u8,
    ] + utf8(s.data.device_name).take(n)
}

/// The firmware-info reply: opcode, version field, hardware revision field,
/// uptime in seconds (little endian).
pub open spec fn firmware_info_reply(uptime_secs: u32) -> Seq<u8> {
    seq![RESPONSE_FIRMWARE_INFO, utf8(FIRMWARE_VERSION@).len() as u8] + utf8(FIRMWARE_VERSION@)
        + seq![utf8(HARDWARE_REVISION@).len() as u8] + utf8(HARDWARE_REVISION@)
        + le_bytes_u32(uptime_secs)
}

/// The string of an optional field, or the empty string.
pub open spec fn or_empty(o: Option<Seq<char>>) -> Seq<char> {
    match o {
        Some(s) => s,
        None => seq![],
    }
}

/// The contents of a setup request.
pub struct SetupRequest {
    pub device_name: Seq<char>,
    pub wifi_ssid: Seq<char>,
    pub wifi_password: Seq<char>,
    pub device_password: Seq<char>,
    pub auth_required: bool,
    pub skip_wifi: bool,
}

/// Reads a setup request: four fields (name, network name, network
/// password, device password) then two flag bytes. Only the network name
/// is mandatory; a missing or unreadable field counts as empty, a missing
/// authentication flag as set and a missing skip-WiFi flag as clear.
pub open spec fn parse_setup(data: Seq<u8>) -> Option<SetupRequest> {
    let (name, c1) = field_at(data, 1);
    let (ssid, c2) = field_at(data, c1);
    let (wifi_password, c3) = field_at(data, c2);
    let (device_password, c4) = field_at(data, c3);
    match ssid {
        None => None,
        Some(ssid) => Some(
            SetupRequest {
                device_name: or_empty(name),
                wifi_ssid: ssid,
                wifi_password: or_empty(wifi_password),
                device_password: or_empty(device_password),
                auth_required: if c4 < data.len() { data[c4] != 0 } else { true },
                skip_wifi: if c4 + 1 < data.len() { data[c4 + 1] != 0 } else { false },
            },
        ),
    }
}

/// A setup request is accepted when it carries a device password if
/// authentication is required, and a network name unless WiFi is skipped.
pub open spec fn setup_acceptable(r: SetupRequest) -> bool {
    &&& !(r.auth_required && r.device_password.len() == 0)
    &&& !(!r.skip_wifi && r.wifi_ssid.len() == 0)
}

/// The configuration after an accepted setup request; an empty name keeps
/// the current one.
pub open spec fn setup_applied(d: SetupView, r: SetupRequest) -> SetupView {
    SetupView {
        device_name: if r.device_name.len() > 0 { r.device_name } else { d.device_name },
        wifi_ssid: r.wifi_ssid,
        wifi_password: r.wifi_password,
        device_password: r.device_password,
        auth_required: r.auth_required,
        wifi_required: !r.skip_wifi,
        configured: true,
    }
}

pub open spec fn apply_setup_step(s: StateView, data: Seq<u8>, bypass_auth: bool) -> StepView {
    if gate_refuses(s, bypass_auth) {
        reply(RESPONSE_AUTH_FAILED)
    } else {
        match parse_setup(data) {
            None => reply(RESPONSE_SETUP_FAILED),
            Some(r) => if !setup_acceptable(r) {
                reply(RESPONSE_SETUP_FAILED)
            } else {
                StepView::Perform(
                    EffectView::Persist {
                        data: setup_applied(s.data, r),
                        authenticated: Some(!bypass_auth),
                        ok: RESPONSE_SETUP_OK,
                        failed: RESPONSE_SETUP_FAILED,
                    },
                )
            },
        }
    }
}

/// Authentication: serial requests are always accepted and change nothing;
/// over BLE an unconfigured device, or one that requires no password,
/// accepts the peer; otherwise the peer is authenticated exactly when it
/// sent the (non-empty) stored password.
pub open spec fn authenticate_step(s: StateView, data: Seq<u8>, bypass_auth: bool) -> (
    StateView,
    StepView,
) {
    if bypass_auth {
        (s, reply(RESPONSE_AUTH_OK))
    } else {
        match field_at(data, 1).0 {
            None => (s, reply(RESPONSE_ERROR)),
            Some(pass) => if !s.data.configured || !s.data.auth_required {
                (StateView { authenticated: true, ..s }, reply(RESPONSE_AUTH_OK))
            } else {
                let verified = s.data.device_password.len() > 0 && pass == s.data.device_password;
                (
                    StateView { authenticated: verified, ..s },
                    reply(if verified { RESPONSE_AUTH_OK } else { RESPONSE_AUTH_FAILED }),
                )
            },
        }
    }
}

pub open spec fn change_password_step(s: StateView, data: Seq<u8>, bypass_auth: bool) -> StepView {
    let (current, c1) = field_at(data, 1);
    let (new_password, _c2) = field_at(data, c1);
    if gate_refuses(s, bypass_auth) {
        reply(RESPONSE_AUTH_FAILED)
    } else if current is None {
        reply(RESPONSE_ERROR)
    } else if new_password is None || new_password->0.len() == 0 {
        reply(RESPONSE_ERROR)
    } else if !bypass_auth && s.data.configured && s.data.auth_required && current->0
        != s.data.device_password {
        reply(RESPONSE_AUTH_FAILED)
    } else {
        StepView::Perform(
            EffectView::Persist {
                data: SetupView {
                    device_password: new_password->0,
                    auth_required: true,
                    ..s.data
                },
                authenticated: None,
                ok: RESPONSE_CHANGE_PASSWORD_OK,
                failed: RESPONSE_ERROR,
            },
        )
    }
}

pub open spec fn update_wifi_step(s: StateView, data: Seq<u8>, bypass_auth: bool) -> StepView {
    let (ssid, c1) = field_at(data, 1);
    let (password, _c2) = field_at(data, c1);
    if gate_refuses(s, bypass_auth) {
        reply(RESPONSE_AUTH_FAILED)
    } else if ssid is None || ssid->0.len() == 0 {
        reply(RESPONSE_ERROR)
    } else {
        StepView::Perform(
            EffectView::Persist {
                data: SetupView {
                    wifi_ssid: ssid->0,
                    wifi_password: or_empty(password),
                    wifi_required: true,
                    ..s.data
                },
                authenticated: None,
                ok: RESPONSE_UPDATE_WIFI_OK,
                failed: RESPONSE_ERROR,
            },
        )
    }
}

/// What a request does: the state right after it and the step to take.
/// The first byte selects the command; an empty or unknown request is
/// answered with an error. Firmware updates are not gated by
/// authentication.
pub open spec fn request_step(s: StateView, data: Seq<u8>, bypass_auth: bool, uptime_secs: u32) -> (
    StateView,
    StepView,
) {
    if data.len() == 0 {
        (s, reply(RESPONSE_ERROR))
    } else {
        let command = data[0];
        if command == COMMAND_GET_STATUS {
            (s, StepView::Reply(status_reply(s, bypass_auth)))
        } else if command == COMMAND_AUTHENTICATE {
            authenticate_step(s, data, bypass_auth)
        } else if command == COMMAND_APPLY_SETUP {
            (s, apply_setup_step(s, data, bypass_auth))
        } else if command == COMMAND_RESTART {
            (
                s,
                if gate_refuses(s, bypass_auth) {
                    reply(RESPONSE_AUTH_FAILED)
                } else {
                    StepView::ReplyThenRestart(seq![RESPONSE_RESTART_OK])
                },
            )
        } else if command == COMMAND_FACTORY_RESET {
            (
                s,
                if gate_refuses(s, bypass_auth) {
                    reply(RESPONSE_AUTH_FAILED)
                } else {
                    StepView::Perform(
                        EffectView::Persist {
                            data: default_setup(),
                            authenticated: Some(false),
                            ok: RESPONSE_FACTORY_RESET_OK,
                            failed: RESPONSE_ERROR,
                        },
                    )
                },
            )
        } else if command == COMMAND_CHANGE_PASSWORD {
            (s, change_password_step(s, data, bypass_auth))
        } else if command == COMMAND_UPDATE_WIFI {
            (s, update_wifi_step(s, data, bypass_auth))
        } else if command == COMMAND_GET_FIRMWARE_INFO {
            (s, StepView::Reply(firmware_info_reply(uptime_secs)))
        } else if command == COMMAND_OTA_BEGIN {
            (
                s,
                if data.len() < 5 {
                    reply(RESPONSE_ERROR)
                } else {
                    StepView::Perform(
                        EffectView::OtaBegin { total_size: le_u32(data[1], data[2], data[3], data[4]) },
                    )
                },
            )
        } else if command == COMMAND_OTA_DATA {
            (
                s,
                if data.len() < 5 {
                    reply(RESPONSE_ERROR)
                } else {
                    StepView::Perform(EffectView::OtaData { payload: data.subrange(5, data.len() as int) })
                },
            )
        } else if command == COMMAND_OTA_END {
            (s, StepView::Perform(EffectView::OtaEnd))
        } else {
            (s, reply(RESPONSE_ERROR))
        }
    }
}

/// The state and reply once an effect has been carried out (`succeeded`)
/// or has failed.
pub open spec fn effect_outcome(s: StateView, e: EffectView, succeeded: bool) -> (StateView, Seq<u8>) {
    match e {
        EffectView::Persist { data, authenticated, ok, failed } => if succeeded {
            (
                StateView {
                    data,
                    authenticated: match authenticated {
                        Some(a) => a,
                        None => s.authenticated,
                    },
                },
                seq![ok],
            )
        } else {
            (s, seq![failed])
        },
        EffectView::OtaBegin { .. } => (
            s,
            seq![if succeeded { RESPONSE_OTA_BEGIN_OK } else { RESPONSE_ERROR }],
        ),
        EffectView::OtaData { .. } => (
            s,
            seq![if succeeded { RESPONSE_OTA_DATA_OK } else { RESPONSE_ERROR }],
        ),
        EffectView::OtaEnd => (s, seq![if succeeded { RESPONSE_OTA_END_OK } else { RESPONSE_ERROR }]),
    }
}

fn one_byte(code: u8) -> (r: Vec<u8>)
    ensures
        r@ == seq![code],
{
    let mut r = Vec::new();
    r.push(code);
    proof {
        assert(r@ =~= seq![code]);
    }
    r
}

fn gate(state: &State, bypass_auth: bool) -> (r: bool)
    ensures
        r == gate_refuses(state@, bypass_auth),
{
    !bypass_auth && state.data.configured && !state.authenticated
}

fn handle_get_status(state: &State, bypass_auth: bool) -> (r: Vec<u8>)
    ensures
        r@ == status_reply(state@, bypass_auth),
{
    let name_bytes = state.data.device_name.as_str().as_bytes();
    let name_len: usize = if name_bytes.len() < 255 { name_bytes.len() } else { 255 };
    let authenticated = !state.data.configured || bypass_auth || !state.data.auth_required
        || state.authenticated;
    let mut resp = Vec::new();
    resp.push(RESPONSE_STATUS);
    resp.push(flag_byte(state.data.configured));
    resp.push(flag_byte(authenticated));
    resp.push(flag_byte(state.data.auth_required));
    resp.push(flag_byte(state.data.wifi_required));
    resp.push(flag_byte(!state.data.wifi_ssid.as_str().is_empty()));
    resp.push(name_len as u8);
    extend_bytes(&mut resp, &name_bytes[0..name_len]);
    proof {
        assert(name_bytes@.subrange(0, name_len as int) =~= utf8(state.data.device_name@).take(
            name_len as int,
        ));
        assert(resp@ =~= status_reply(state@, bypass_auth));
    }
    resp
}

fn handle_authenticate(state: &mut State, data: &[u8], bypass_auth: bool) -> (r: Vec<u8>)
    ensures
        (final(state)@, StepView::Reply(r@)) == authenticate_step(old(state)@, data@, bypass_auth),
{
    if bypass_auth {
        return one_byte(RESPONSE_AUTH_OK);
    }
    let mut cursor: usize = 1;
    let pass = match read_field(data, &mut cursor) {
        Some(p) => p,
        None => return one_byte(RESPONSE_ERROR),
    };
    if !state.data.configured || !state.data.auth_required {
        state.authenticated = true;
        return one_byte(RESPONSE_AUTH_OK);
    }
    let verified = !state.data.device_password.as_str().is_empty() && pass
        == state.data.device_password;
    state.authenticated = verified;
    one_byte(if verified { RESPONSE_AUTH_OK } else { RESPONSE_AUTH_FAILED })
}

fn or_empty_string(o: Option<String>) -> (r: String)
    ensures
        r@ == or_empty(opt_view(o)),
{
    match o {
        Some(s) => s,
        None => String::new(),
    }
}

/// Handles a setup request: refused by the authentication gate, refused
/// when the settings are incomplete, otherwise the settings are to be stored
/// (see `apply_setup_step`).
pub fn handle_apply_setup(state: &State, data: &[u8], bypass_auth: bool) -> (r: Step)
    ensures
        r@ == apply_setup_step(state@, data@, bypass_auth),
{
    if gate(state, bypass_auth) {
        return Step::Reply(one_byte(RESPONSE_AUTH_FAILED));
    }
    let mut cursor: usize = 1;
    let dev_name = or_empty_string(read_field(data, &mut cursor));
    let wifi_ssid = match read_field(data, &mut cursor) {
        Some(s) => s,
        None => return Step::Reply(one_byte(RESPONSE_SETUP_FAILED)),
    };
    let wifi_pass = or_empty_string(read_field(data, &mut cursor));
    let dev_pass = or_empty_string(read_field(data, &mut cursor));
    let auth_required = if cursor < data.len() { data[cursor] != 0 } else { true };
    let skip_wifi = if cursor < data.len() && cursor + 1 < data.len() {
        data[cursor + 1] != 0
    } else {
        false
    };
    if auth_required && dev_pass.as_str().is_empty() {
        return Step::Reply(one_byte(RESPONSE_SETUP_FAILED));
    }
    if !skip_wifi && wifi_ssid.as_str().is_empty() {
        return Step::Reply(one_byte(RESPONSE_SETUP_FAILED));
    }
    let mut new_data = state.data.clone();
    new_data.wifi_ssid = wifi_ssid;
    new_data.wifi_password = wifi_pass;
    new_data.device_password = dev_pass;
    new_data.auth_required = auth_required;
    new_data.wifi_required = !skip_wifi;
    if !dev_name.as_str().is_empty() {
        new_data.device_name = dev_name;
    }
    new_data.configured = true;
    Step::Perform(
        Effect::Persist {
            data: new_data,
            authenticated: Some(!bypass_auth),
            ok: RESPONSE_SETUP_OK,
            failed: RESPONSE_SETUP_FAILED,
        },
    )
}

fn handle_change_password(state: &State, data: &[u8], bypass_auth: bool) -> (r: Step)
    ensures
        r@ == change_password_step(state@, data@, bypass_auth),
{
    if gate(state, bypass_auth) {
        return Step::Reply(one_byte(RESPONSE_AUTH_FAILED));
    }
    let mut cursor: usize = 1;
    let current_pass = match read_field(data, &mut cursor) {
        Some(p) => p,
        None => return Step::Reply(one_byte(RESPONSE_ERROR)),
    };
    let new_pass = match read_field(data, &mut cursor) {
        Some(p) => {
            if p.as_str().is_empty() {
                return Step::Reply(one_byte(RESPONSE_ERROR));
            }
            p
        },
        None => return Step::Reply(one_byte(RESPONSE_ERROR)),
    };
    if !bypass_auth && state.data.configured && state.data.auth_required && !(current_pass
        == state.data.device_password) {
        return Step::Reply(one_byte(RESPONSE_AUTH_FAILED));
    }
    let mut new_data = state.data.clone();
    new_data.device_password = new_pass;
    new_data.auth_required = true;
    Step::Perform(
        Effect::Persist {
            data: new_data,
            authenticated: None,
            ok: RESPONSE_CHANGE_PASSWORD_OK,
            failed: RESPONSE_ERROR,
        },
    )
}

fn handle_update_wifi(state: &State, data: &[u8], bypass_auth: bool) -> (r: Step)
    ensures
        r@ == update_wifi_step(state@, data@, bypass_auth),
{
    if gate(state, bypass_auth) {
        return Step::Reply(one_byte(RESPONSE_AUTH_FAILED));
    }
    let mut cursor: usize = 1;
    let wifi_ssid = match read_field(data, &mut cursor) {
        Some(s) => {
            if s.as_str().is_empty() {
                return Step::Reply(one_byte(RESPONSE_ERROR));
            }
            s
        },
        None => return Step::Reply(one_byte(RESPONSE_ERROR)),
    };
    let wifi_pass = or_empty_string(read_field(data, &mut cursor));
    let mut new_data = state.data.clone();
    new_data.wifi_ssid = wifi_ssid;
    new_data.wifi_password = wifi_pass;
    new_data.wifi_required = true;
    Step::Perform(
        Effect::Persist {
            data: new_data,
            authenticated: None,
            ok: RESPONSE_UPDATE_WIFI_OK,
            failed: RESPONSE_ERROR,
        },
    )
}

fn handle_get_firmware_info(uptime_secs: u32) -> (r: Vec<u8>)
    ensures
        r@ == firmware_info_reply(uptime_secs),
{
    let version_bytes = FIRMWARE_VERSION.as_bytes();
    let hw_rev_bytes = HARDWARE_REVISION.as_bytes();
    let mut resp = Vec::new();
    resp.push(RESPONSE_FIRMWARE_INFO);
    resp.push(version_bytes.len() as u8);
    extend_bytes(&mut resp, version_bytes);
    resp.push(hw_rev_bytes.len() as u8);
    extend_bytes(&mut resp, hw_rev_bytes);
    push_u32_le(&mut resp, uptime_secs);
    proof {
        assert(resp@ =~= firmware_info_reply(uptime_secs));
    }
    resp
}

fn handle_ota_begin(data: &[u8]) -> (r: Step)
    requires
        data@.len() > 0,
    ensures
        r@ == (if data@.len() < 5 {
            reply(RESPONSE_ERROR)
        } else {
            StepView::Perform(
                EffectView::OtaBegin { total_size: le_u32(data@[1], data@[2], data@[3], data@[4]) },
            )
        }),
{
    if data.len() < 5 {
        return Step::Reply(one_byte(RESPONSE_ERROR));
    }
    let total_size = u32_from_le(data[1], data[2], data[3], data[4]) as usize;
    Step::Perform(Effect::OtaBegin { total_size })
}

fn handle_ota_data(data: &[u8]) -> (r: Step)
    ensures
        r@ == (if data@.len() < 5 {
            reply(RESPONSE_ERROR)
        } else {
            StepView::Perform(EffectView::OtaData { payload: data@.subrange(5, data@.len() as int) })
        }),
{
    if data.len() < 5 {
        return Step::Reply(one_byte(RESPONSE_ERROR));
    }
    let mut payload = Vec::new();
    extend_bytes(&mut payload, &data[5..data.len()]);
    assert(payload@ =~= data@.subrange(5, data@.len() as int));
    Step::Perform(Effect::OtaData { payload })
}

/// Processes one request. `bypass_auth` is set for requests from the
/// serial link, whose peer is trusted; `uptime_secs` is the time since
/// boot, reported by the firmware-info request.
pub fn process_request(state: &mut State, data: &[u8], bypass_auth: bool, uptime_secs: u32) -> (r:
    Step)
    ensures
        (final(state)@, r@) == request_step(old(state)@, data@, bypass_auth, uptime_secs),
{
    if data.len() == 0 {
        return Step::Reply(one_byte(RESPONSE_ERROR));
    }
    let command = data[0];
    if command == COMMAND_GET_STATUS {
        Step::Reply(handle_get_status(state, bypass_auth))
    } else if command == COMMAND_AUTHENTICATE {
        Step::Reply(handle_authenticate(state, data, bypass_auth))
    } else if command == COMMAND_APPLY_SETUP {
        handle_apply_setup(state, data, bypass_auth)
    } else if command == COMMAND_RESTART {
        if gate(state, bypass_auth) {
            Step::Reply(one_byte(RESPONSE_AUTH_FAILED))
        } else {
            Step::ReplyThenRestart(one_byte(RESPONSE_RESTART_OK))
        }
    } else if command == COMMAND_FACTORY_RESET {
        if gate(state, bypass_auth) {
            Step::Reply(one_byte(RESPONSE_AUTH_FAILED))
        } else {
            Step::Perform(
                Effect::Persist {
                    data: DeviceSetupData::default(),
                    authenticated: Some(false),
                    ok: RESPONSE_FACTORY_RESET_OK,
                    failed: RESPONSE_ERROR,
                },
            )
        }
    } else if command == COMMAND_CHANGE_PASSWORD {
        handle_change_password(state, data, bypass_auth)
    } else if command == COMMAND_UPDATE_WIFI {
        handle_update_wifi(state, data, bypass_auth)
    } else if command == COMMAND_GET_FIRMWARE_INFO {
        Step::Reply(handle_get_firmware_info(uptime_secs))
    } else if command == COMMAND_OTA_BEGIN {
        handle_ota_begin(data)
    } else if command == COMMAND_OTA_DATA {
        handle_ota_data(data)
    } else if command == COMMAND_OTA_END {
        Step::Perform(Effect::OtaEnd)
    } else {
        Step::Reply(one_byte(RESPONSE_ERROR))
    }
}

/// Processes a request received over BLE.
pub fn process_ble_request(state: &mut State, data: &[u8], uptime_secs: u32) -> (r: Step)
    ensures
        (final(state)@, r@) == request_step(old(state)@, data@, false, uptime_secs),
{
    process_request(state, data, false, uptime_secs)
}

/// Processes a request received over the serial link.
pub fn process_serial_request(state: &mut State, data: &[u8], uptime_secs: u32) -> (r: Step)
    ensures
        (final(state)@, r@) == request_step(old(state)@, data@, true, uptime_secs),
{
    process_request(state, data, true, uptime_secs)
}

/// Completes a request whose step was `Perform(effect)`, once the effect
/// has been carried out (`succeeded`) or has failed; returns the reply.
pub fn complete_effect(state: &mut State, effect: Effect, succeeded: bool) -> (r: Vec<u8>)
    ensures
        (final(state)@, r@) == effect_outcome(old(state)@, effect@, succeeded),
{
    match effect {
        Effect::Persist { data, authenticated, ok, failed } => {
            if succeeded {
                state.data = data;
                match authenticated {
                    Some(a) => state.authenticated = a,
                    None => {},
                }
                one_byte(ok)
            } else {
                one_byte(failed)
            }
        },
        Effect::OtaBegin { .. } => one_byte(
            if succeeded { RESPONSE_OTA_BEGIN_OK } else { RESPONSE_ERROR },
        ),
        Effect::OtaData { .. } => one_byte(
            if succeeded { RESPONSE_OTA_DATA_OK } else { RESPONSE_ERROR },
        ),
        Effect::OtaEnd => one_byte(if succeeded { RESPONSE_OTA_END_OK } else { RESPONSE_ERROR }),
    }
}

/// Requests that change the device's configuration or restart it.
pub open spec fn is_guarded_command(command: u8) -> bool {
    command == COMMAND_APPLY_SETUP || command == COMMAND_RESTART || command
        == COMMAND_FACTORY_RESET || command == COMMAND_CHANGE_PASSWORD || command
        == COMMAND_UPDATE_WIFI
}

/// No request changes the configuration by itself: it changes only when a
/// requested store succeeds.
pub proof fn lemma_configuration_changes_only_by_storing(
    s: StateView,
    data: Seq<u8>,
    bypass_auth: bool,
    uptime_secs: u32,
)
    ensures
        request_step(s, data, bypass_auth, uptime_secs).0.data == s.data,
        data.len() > 0 && data[0] != COMMAND_AUTHENTICATE ==> request_step(
            s,
            data,
            bypass_auth,
            uptime_secs,
        ).0 == s,
{
}

/// Every request keeps a complete configuration complete, whether or not
/// the storing it asks for succeeds.
pub proof fn lemma_requests_keep_setup_complete(
    s: StateView,
    data: Seq<u8>,
    bypass_auth: bool,
    uptime_secs: u32,
    succeeded: bool,
)
    requires
        setup_complete(s.data),
    ensures
        setup_complete(request_step(s, data, bypass_auth, uptime_secs).0.data),
        request_step(s, data, bypass_auth, uptime_secs).1 matches StepView::Perform(e)
            ==> setup_complete(
            effect_outcome(request_step(s, data, bypass_auth, uptime_secs).0, e, succeeded).0.data,
        ),
{
}

/// The status reply tells the requester whether it counts as authenticated:
/// its third byte is 1 exactly when the device is unconfigured, the request
/// came over the serial link, the device requires no password, or the BLE
/// peer has authenticated, and 0 otherwise. So a configured device that
/// requires no password always reports the requester authenticated, whatever
/// the peer's session says, and one the reply calls unauthenticated is one
/// the device refuses. The request changes nothing.
pub proof fn lemma_status_reports_authentication(s: StateView, bypass_auth: bool, uptime_secs: u32)
    ensures
        request_step(s, seq![COMMAND_GET_STATUS], bypass_auth, uptime_secs).0 == s,
        request_step(s, seq![COMMAND_GET_STATUS], bypass_auth, uptime_secs).1 matches StepView::Reply(
            r,
        ) && r.len() >= 7 && r[0] == RESPONSE_STATUS && r[1] == (if s.data.configured {
            1u8
        } else {
            0u8
        }) && (r[2] == 1u8 <==> (!s.data.configured || bypass_auth || !s.data.auth_required
            || s.authenticated)) && (r[2] == 0u8 || r[2] == 1u8) && r[3] == (
        if s.data.auth_required {
            1u8
        } else {
            0u8
        }) && r[4] == (if s.data.wifi_required {
            1u8
        } else {
            0u8
        }) && r[5] == (if s.data.wifi_ssid.len() > 0 {
            1u8
        } else {
            0u8
        }),
        s.data.configured && !s.data.auth_required ==> (request_step(
            s,
            seq![COMMAND_GET_STATUS],
            bypass_auth,
            uptime_secs,
        ).1 matches StepView::Reply(r) && r[2] == 1u8),
        request_step(s, seq![COMMAND_GET_STATUS], bypass_auth, uptime_secs).1 matches StepView::Reply(
            r,
        ) && r[2] == 0u8 ==> gate_refuses(s, bypass_auth),
{
}

/// A configured device refuses every request that changes it or restarts
/// it, with an authentication failure and no change of state, when the
/// request came over BLE from a peer that has not authenticated.
pub proof fn lemma_unauthenticated_peer_refused(s: StateView, data: Seq<u8>, uptime_secs: u32)
    requires
        s.data.configured,
        !s.authenticated,
        data.len() > 0,
        is_guarded_command(data[0]),
    ensures
        request_step(s, data, false, uptime_secs) == (s, reply(RESPONSE_AUTH_FAILED)),
{
}

/// Requests from the serial link are never refused for want of
/// authentication.
pub proof fn lemma_serial_requests_never_refused(s: StateView, data: Seq<u8>, uptime_secs: u32)
    ensures
        request_step(s, data, true, uptime_secs).1 != reply(RESPONSE_AUTH_FAILED),
{
    assert(seq![RESPONSE_AUTH_FAILED][0] == RESPONSE_AUTH_FAILED);
}

/// A factory reset that is allowed and whose storing succeeds restores the
/// factory configuration and forgets the peer's authentication.
pub proof fn lemma_factory_reset_restores_defaults(
    s: StateView,
    data: Seq<u8>,
    bypass_auth: bool,
    uptime_secs: u32,
)
    requires
        data.len() > 0,
        data[0] == COMMAND_FACTORY_RESET,
        !gate_refuses(s, bypass_auth),
    ensures
        request_step(s, data, bypass_auth, uptime_secs).1 matches StepView::Perform(e)
            && effect_outcome(s, e, true) == (
            StateView { data: default_setup(), authenticated: false },
            seq![RESPONSE_FACTORY_RESET_OK],
        ),
{
}

} // verus!
