//! Requests the companion sends to the device, and what the device makes
//! of them.
use vstd::prelude::*;
use vstd::string::*;
use crate::device::{SetupView, StateView};
use crate::fields::{append_field, field_at, field_encoding, lemma_field_roundtrip, utf8, FIELD_TOO_LONG};
use crate::processor::{
    apply_setup_step, effect_outcome, gate_refuses, parse_setup, request_step, EffectView,
    SetupRequest, StepView,
};
use crate::wire::{
    extend_bytes, flag_byte, le_bytes_u32, lemma_le_u32_roundtrip, push_u32_le, spec_flag,
    COMMAND_APPLY_SETUP, COMMAND_AUTHENTICATE, COMMAND_CHANGE_PASSWORD, COMMAND_OTA_BEGIN,
    COMMAND_OTA_DATA, COMMAND_UPDATE_WIFI, RESPONSE_CHANGE_PASSWORD_OK, RESPONSE_ERROR,
    RESPONSE_SETUP_FAILED, RESPONSE_SETUP_OK, RESPONSE_UPDATE_WIFI_OK, RESPONSE_AUTH_OK,
    RESPONSE_AUTH_FAILED,
};

verus! {

/// The setup request for the given settings.
pub open spec fn setup_request_bytes(
    device_name: Seq<char>,
    wifi_ssid: Seq<char>,
    wifi_password: Seq<char>,
    device_password: Seq<char>,
    auth_required: bool,
    skip_wifi: bool,
) -> Seq<u8> {
    seq![COMMAND_APPLY_SETUP] + field_encoding(device_name) + field_encoding(wifi_ssid)
        + field_encoding(wifi_password) + field_encoding(device_password) + seq![
        spec_flag(auth_required),
        spec_flag(skip_wifi),
    ]
}

fn push_field(buf: &mut Vec<u8>, val: &str) -> (r: Result<(), String>)
    ensures
        r is Ok <==> utf8(val@).len() <= 255,
        r is Ok ==> final(buf)@ == old(buf)@ + field_encoding(val@),
        r matches Err(m) ==> m@ == FIELD_TOO_LONG@,
{
    match append_field(buf, val) {
        Ok(()) => Ok(()),
        Err(e) => Err(String::from_str(e)),
    }
}

/// Builds the setup request. Fails, with the field-length error, when a
/// field is longer than 255 bytes.
pub fn setup_command(
    device_name: &str,
    wifi_ssid: &str,
    wifi_password: &str,
    device_password: &str,
    auth_required: bool,
    skip_wifi: bool,
) -> (r: Result<Vec<u8>, String>)
    ensures
        r is Ok <==> (utf8(device_name@).len() <= 255 && utf8(wifi_ssid@).len() <= 255 && utf8(
            wifi_password@,
        ).len() <= 255 && utf8(device_password@).len() <= 255),
        r matches Ok(cmd) ==> cmd@ == setup_request_bytes(
            device_name@,
            wifi_ssid@,
            wifi_password@,
            device_password@,
            auth_required,
            skip_wifi,
        ),
        r matches Err(m) ==> m@ == FIELD_TOO_LONG@,
{
    let mut command = Vec::new();
    command.push(COMMAND_APPLY_SETUP);
    push_field(&mut command, device_name)?;
    push_field(&mut command, wifi_ssid)?;
    push_field(&mut command, wifi_password)?;
    push_field(&mut command, device_password)?;
    command.push(flag_byte(auth_required));
    command.push(flag_byte(skip_wifi));
    proof {
        assert(command@ =~= setup_request_bytes(
            device_name@,
            wifi_ssid@,
            wifi_password@,
            device_password@,
            auth_required,
            skip_wifi,
        ));
    }
    Ok(command)
}

/// The request carrying the opcode and two fields.
pub open spec fn two_field_request(command: u8, first: Seq<char>, second: Seq<char>) -> Seq<u8> {
    seq![command] + field_encoding(first) + field_encoding(second)
}

fn two_field_command(command: u8, first: &str, second: &str) -> (r: Result<Vec<u8>, String>)
    ensures
        r is Ok <==> (utf8(first@).len() <= 255 && utf8(second@).len() <= 255),
        r matches Ok(cmd) ==> cmd@ == two_field_request(command, first@, second@),
        r matches Err(m) ==> m@ == FIELD_TOO_LONG@,
{
    let mut buf = Vec::new();
    buf.push(command);
    push_field(&mut buf, first)?;
    push_field(&mut buf, second)?;
    proof {
        assert(buf@ =~= two_field_request(command, first@, second@));
    }
    Ok(buf)
}

/// Builds the password-change request.
pub fn change_password_command(current_password: &str, new_password: &str) -> (r: Result<
    Vec<u8>,
    String,
>)
    ensures
        r is Ok <==> (utf8(current_password@).len() <= 255 && utf8(new_password@).len() <= 255),
        r matches Ok(cmd) ==> cmd@ == two_field_request(
            COMMAND_CHANGE_PASSWORD,
            current_password@,
            new_password@,
        ),
        r matches Err(m) ==> m@ == FIELD_TOO_LONG@,
{
    two_field_command(COMMAND_CHANGE_PASSWORD, current_password, new_password)
}

/// Builds the WiFi-update request.
pub fn update_wifi_command(ssid: &str, password: &str) -> (r: Result<Vec<u8>, String>)
    ensures
        r is Ok <==> (utf8(ssid@).len() <= 255 && utf8(password@).len() <= 255),
        r matches Ok(cmd) ==> cmd@ == two_field_request(COMMAND_UPDATE_WIFI, ssid@, password@),
        r matches Err(m) ==> m@ == FIELD_TOO_LONG@,
{
    two_field_command(COMMAND_UPDATE_WIFI, ssid, password)
}

/// Builds the authentication request.
pub fn authenticate_command(password: &str) -> (r: Result<Vec<u8>, String>)
    ensures
        r is Ok <==> utf8(password@).len() <= 255,
        r matches Ok(cmd) ==> cmd@ == seq![COMMAND_AUTHENTICATE] + field_encoding(password@),
        r matches Err(m) ==> m@ == FIELD_TOO_LONG@,
{
    let mut buf = Vec::new();
    buf.push(COMMAND_AUTHENTICATE);
    push_field(&mut buf, password)?;
    Ok(buf)
}

/// A request made of its opcode alone (status, firmware info, restart,
/// factory reset, end of firmware update).
pub fn opcode_command(command: u8) -> (r: Vec<u8>)
    ensures
        r@ == seq![command],
{
    let mut buf = Vec::new();
    buf.push(command);
    proof {
        assert(buf@ =~= seq![command]);
    }
    buf
}

/// Whether a reply starts with the expected opcode.
pub fn reply_is(response: &[u8], expected: u8) -> (r: bool)
    ensures
        r == (response@.len() > 0 && response@[0] == expected),
{
    response.len() > 0 && response[0] == expected
}

/// Checks that the device accepted a request: `Ok` when the reply starts
/// with the expected opcode, otherwise the rejection message.
pub fn check_reply(response: &[u8], expected: u8, rejection: &str) -> (r: Result<(), String>)
    ensures
        r is Ok <==> (response@.len() > 0 && response@[0] == expected),
        r matches Err(m) ==> m@ == rejection@,
{
    if reply_is(response, expected) {
        Ok(())
    } else {
        Err(String::from_str(rejection))
    }
}

/// How the device answered an authentication request.
#[derive(Debug, Clone, Copy, PartialEq, Eq, Structural)]
pub enum AuthReply {
    Accepted,
    Rejected,
    Unexpected,
}

/// Reads the device's answer to an authentication request.
pub fn auth_reply(response: &[u8]) -> (r: AuthReply)
    ensures
        r == (if response@.len() > 0 && response@[0] == RESPONSE_AUTH_OK {
            AuthReply::Accepted
        } else if response@.len() > 0 && response@[0] == RESPONSE_AUTH_FAILED {
            AuthReply::Rejected
        } else {
            AuthReply::Unexpected
        }),
{
    if reply_is(response, RESPONSE_AUTH_OK) {
        AuthReply::Accepted
    } else if reply_is(response, RESPONSE_AUTH_FAILED) {
        AuthReply::Rejected
    } else {
        AuthReply::Unexpected
    }
}

/// The request that starts a firmware update of `total_size` bytes (the
/// size is sent as 32 bits).
pub open spec fn ota_begin_request(total_size: usize) -> Seq<u8> {
    seq![COMMAND_OTA_BEGIN] + le_bytes_u32(total_size as u32)
}

/// Builds the request that starts a firmware update.
pub fn ota_begin_command(total_size: usize) -> (r: Vec<u8>)
    ensures
        r@ == ota_begin_request(total_size),
{
    let mut buf = Vec::new();
    buf.push(COMMAND_OTA_BEGIN);
    push_u32_le(&mut buf, #[verifier::truncate] (total_size as u32));
    proof {
        assert(buf@ =~= ota_begin_request(total_size));
    }
    buf
}

/// The number of chunks of `chunk_size` bytes an image of `total_size`
/// bytes is sent in.
pub open spec fn chunk_count(total_size: int, chunk_size: int) -> int {
    (total_size + chunk_size - 1) / chunk_size
}

/// Computes the number of chunks.
pub fn ota_chunk_count(total_size: usize, chunk_size: usize) -> (r: usize)
    requires
        chunk_size > 0,
    ensures
        r == chunk_count(total_size as int, chunk_size as int),
{
    let q = total_size / chunk_size;
    let rem = total_size % chunk_size;
    proof {
        lemma_chunk_count(total_size as int, chunk_size as int);
    }
    if rem == 0 { q } else { q + 1 }
}

proof fn lemma_chunk_count(total: int, c: int)
    requires
        total >= 0,
        c > 0,
    ensures
        chunk_count(total, c) == total / c + (if total % c == 0 { 0int } else { 1int }),
        total % c != 0 ==> total / c + 1 <= total,
{
    vstd::arithmetic::div_mod::lemma_fundamental_div_mod(total, c);
    let q = total / c;
    let r = total % c;
    assert(total == q * c + r) by (nonlinear_arith)
        requires
            total == c * q + r,
    ;
    assert(q >= 0) by (nonlinear_arith)
        requires
            total == q * c + r,
            total >= 0,
            c > 0,
            0 <= r < c,
    ;
    if r == 0 {
        assert(total + c - 1 == q * c + (c - 1));
        vstd::arithmetic::div_mod::lemma_fundamental_div_mod_converse(total + c - 1, c, q, c - 1);
    } else {
        assert(total + c - 1 == (q + 1) * c + (r - 1)) by (nonlinear_arith)
            requires
                total == q * c + r,
        ;
        vstd::arithmetic::div_mod::lemma_fundamental_div_mod_converse(
            total + c - 1,
            c,
            q + 1,
            r - 1,
        );
        assert(q + 1 <= total) by (nonlinear_arith)
            requires
                total == q * c + r,
                r >= 1,
                c >= 1,
                q >= 0,
        ;
    }
}

/// The bytes of chunk `seq` of an image cut into chunks of `chunk_size`
/// bytes (the last chunk may be shorter).
pub open spec fn ota_chunk(image: Seq<u8>, seq: int, chunk_size: int) -> Seq<u8> {
    let start = seq * chunk_size;
    let end = if start + chunk_size < image.len() { start + chunk_size } else { image.len() as int };
    image.subrange(start, end)
}

/// The request that carries chunk `seq` of the image: opcode, the chunk
/// number as 32 bits, the chunk's bytes.
pub open spec fn ota_data_request(image: Seq<u8>, seq: usize, chunk_size: usize) -> Seq<u8> {
    seq![COMMAND_OTA_DATA] + le_bytes_u32(seq as u32) + ota_chunk(image, seq as int, chunk_size as int)
}

/// Builds the request that carries chunk `seq` of the image.
pub fn ota_data_command(image: &[u8], seq: usize, chunk_size: usize) -> (r: Vec<u8>)
    requires
        chunk_size > 0,
        seq * chunk_size < image@.len(),
    ensures
        r@ == ota_data_request(image@, seq, chunk_size),
{
    assert(image@.len() == image.len());
    let start = seq * chunk_size;
    let end = if chunk_size < image.len() - start { start + chunk_size } else { image.len() };
    let mut buf = Vec::new();
    buf.push(COMMAND_OTA_DATA);
    push_u32_le(&mut buf, #[verifier::truncate] (seq as u32));
    extend_bytes(&mut buf, &image[start..end]);
    proof {
        assert(buf@ =~= ota_data_request(image@, seq, chunk_size));
    }
    buf
}

/// Chunks `0..k` of an image, joined in order.
pub open spec fn chunks_joined(image: Seq<u8>, chunk_size: int, k: nat) -> Seq<u8>
    decreases k,
{
    if k == 0 {
        seq![]
    } else {
        chunks_joined(image, chunk_size, (k - 1) as nat) + ota_chunk(image, k - 1, chunk_size)
    }
}

proof fn lemma_chunks_prefix(image: Seq<u8>, c: int, k: nat)
    requires
        c > 0,
        (k as int - 1) * c < image.len() || k == 0,
    ensures
        chunks_joined(image, c, k) == image.take(
            if k * c < image.len() { k * c } else { image.len() as int },
        ),
    decreases k,
{
    if k == 0 {
        assert(image.take(0) =~= seq![]);
    } else {
        let k1 = (k - 1) as nat;
        assert((k1 * c) <= (k - 1) * c) by (nonlinear_arith)
            requires
                k1 == k - 1,
        ;
        if k1 > 0 {
            assert((k1 as int - 1) * c < image.len()) by (nonlinear_arith)
                requires
                    (k as int - 1) * c < image.len(),
                    k1 == k - 1,
                    c > 0,
            ;
        }
        lemma_chunks_prefix(image, c, k1);
        assert(k * c == k1 * c + c) by (nonlinear_arith)
            requires
                k1 == k - 1,
        ;
        assert(chunks_joined(image, c, k) =~= image.take(
            if k * c < image.len() { k * c } else { image.len() as int },
        ));
    }
}

/// Sent in order, the chunks of a firmware image make up the whole image.
pub proof fn lemma_chunks_rebuild_image(image: Seq<u8>, chunk_size: int)
    requires
        chunk_size > 0,
    ensures
        chunks_joined(image, chunk_size, chunk_count(image.len() as int, chunk_size) as nat)
            == image,
{
    let total = image.len() as int;
    let k = chunk_count(total, chunk_size);
    lemma_chunk_count(total, chunk_size);
    let q = total / chunk_size;
    let r = total % chunk_size;
    vstd::arithmetic::div_mod::lemma_fundamental_div_mod(total, chunk_size);
    assert(k >= 0);
    if k > 0 {
        assert((k - 1) * chunk_size < total) by (nonlinear_arith)
            requires
                total == chunk_size * q + r,
                0 <= r < chunk_size,
                k == q + (if r == 0 { 0int } else { 1int }),
                k > 0,
        ;
    }
    assert(k * chunk_size >= total) by (nonlinear_arith)
        requires
            total == chunk_size * q + r,
            0 <= r < chunk_size,
            k == q + (if r == 0 { 0int } else { 1int }),
    ;
    lemma_chunks_prefix(image, chunk_size, k as nat);
    assert(image.take(total) =~= image);
}

/// A setup request the companion builds is read by the device as exactly
/// the settings it was built from.
pub proof fn lemma_setup_request_roundtrip(
    device_name: Seq<char>,
    wifi_ssid: Seq<char>,
    wifi_password: Seq<char>,
    device_password: Seq<char>,
    auth_required: bool,
    skip_wifi: bool,
)
    requires
        utf8(device_name).len() <= 255,
        utf8(wifi_ssid).len() <= 255,
        utf8(wifi_password).len() <= 255,
        utf8(device_password).len() <= 255,
    ensures
        parse_setup(
            setup_request_bytes(
                device_name,
                wifi_ssid,
                wifi_password,
                device_password,
                auth_required,
                skip_wifi,
            ),
        ) == Some(
            SetupRequest {
                device_name,
                wifi_ssid,
                wifi_password,
                device_password,
                auth_required,
                skip_wifi,
            },
        ),
{
    let flags = seq![spec_flag(auth_required), spec_flag(skip_wifi)];
    let f1 = field_encoding(device_name);
    let f2 = field_encoding(wifi_ssid);
    let f3 = field_encoding(wifi_password);
    let f4 = field_encoding(device_password);
    let head = seq![COMMAND_APPLY_SETUP];
    let data = setup_request_bytes(
        device_name,
        wifi_ssid,
        wifi_password,
        device_password,
        auth_required,
        skip_wifi,
    );
    let n1: int = f1.len() as int;
    let n2: int = f2.len() as int;
    let n3: int = f3.len() as int;
    let n4: int = f4.len() as int;
    assert(field_at(data, 1) == (Some(device_name), 1 + n1)) by {
        lemma_field_in(data, head, device_name, f2 + f3 + f4 + flags);
    }
    assert(field_at(data, 1 + n1) == (Some(wifi_ssid), 1 + n1 + n2)) by {
        lemma_field_in(data, head + f1, wifi_ssid, f3 + f4 + flags);
    }
    assert(field_at(data, 1 + n1 + n2) == (Some(wifi_password), 1 + n1 + n2 + n3)) by {
        lemma_field_in(data, head + f1 + f2, wifi_password, f4 + flags);
    }
    let c4: int = 1 + n1 + n2 + n3 + n4;
    assert(field_at(data, 1 + n1 + n2 + n3) == (Some(device_password), c4)) by {
        lemma_field_in(data, head + f1 + f2 + f3, device_password, flags);
    }
    assert(data.len() == c4 + 2 && data[c4] == spec_flag(auth_required) && data[c4 + 1]
        == spec_flag(skip_wifi)) by {
        assert(data =~= (head + f1 + f2 + f3 + f4) + flags);
    }
}

proof fn lemma_field_in(data: Seq<u8>, prefix: Seq<u8>, s: Seq<char>, suffix: Seq<u8>)
    requires
        utf8(s).len() <= 255,
        data =~= prefix + field_encoding(s) + suffix,
    ensures
        field_at(data, prefix.len() as int) == (
            Some(s),
            (prefix.len() + field_encoding(s).len()) as int,
        ),
{
    lemma_field_roundtrip(prefix, s, suffix);
}

/// When the device may be changed, an acceptable setup the companion sends
/// is stored exactly as entered (keeping the current name if none is given),
/// and on success it becomes the configuration.
pub proof fn lemma_setup_request_applied(
    s: StateView,
    device_name: Seq<char>,
    wifi_ssid: Seq<char>,
    wifi_password: Seq<char>,
    device_password: Seq<char>,
    auth_required: bool,
    skip_wifi: bool,
    bypass_auth: bool,
    uptime_secs: u32,
)
    requires
        utf8(device_name).len() <= 255,
        utf8(wifi_ssid).len() <= 255,
        utf8(wifi_password).len() <= 255,
        utf8(device_password).len() <= 255,
        !gate_refuses(s, bypass_auth),
        !(auth_required && device_password.len() == 0),
        !(!skip_wifi && wifi_ssid.len() == 0),
    ensures
        request_step(
            s,
            setup_request_bytes(
                device_name,
                wifi_ssid,
                wifi_password,
                device_password,
                auth_required,
                skip_wifi,
            ),
            bypass_auth,
            uptime_secs,
        ) == (
            s,
            StepView::Perform(
                EffectView::Persist {
                    data: SetupView {
                        device_name: if device_name.len() > 0 {
                            device_name
                        } else {
                            s.data.device_name
                        },
                        wifi_ssid,
                        wifi_password,
                        device_password,
                        auth_required,
                        wifi_required: !skip_wifi,
                        configured: true,
                    },
                    authenticated: Some(!bypass_auth),
                    ok: RESPONSE_SETUP_OK,
                    failed: RESPONSE_SETUP_FAILED,
                },
            ),
        ),
{
    lemma_setup_request_roundtrip(
        device_name,
        wifi_ssid,
        wifi_password,
        device_password,
        auth_required,
        skip_wifi,
    );
}

/// The configuration entered in a setup request, the current name kept when
/// none is given.
pub open spec fn entered_setup(
    current_name: Seq<char>,
    device_name: Seq<char>,
    wifi_ssid: Seq<char>,
    wifi_password: Seq<char>,
    device_password: Seq<char>,
    auth_required: bool,
    skip_wifi: bool,
) -> SetupView {
    SetupView {
        device_name: if device_name.len() > 0 {
            device_name
        } else {
            current_name
        },
        wifi_ssid,
        wifi_password,
        device_password,
        auth_required,
        wifi_required: !skip_wifi,
        configured: true,
    }
}

/// The setup handler takes an acceptable setup request the companion sends,
/// on a device that may be changed, as a store of exactly the entered
/// configuration; once stored, the device answers that setup succeeded,
/// holds that configuration, and counts the peer authenticated exactly when
/// the request came over BLE.
pub proof fn lemma_setup_request_stored(
    s: StateView,
    device_name: Seq<char>,
    wifi_ssid: Seq<char>,
    wifi_password: Seq<char>,
    device_password: Seq<char>,
    auth_required: bool,
    skip_wifi: bool,
    bypass_auth: bool,
)
    requires
        utf8(device_name).len() <= 255,
        utf8(wifi_ssid).len() <= 255,
        utf8(wifi_password).len() <= 255,
        utf8(device_password).len() <= 255,
        !gate_refuses(s, bypass_auth),
        !(auth_required && device_password.len() == 0),
        !(!skip_wifi && wifi_ssid.len() == 0),
    ensures
        apply_setup_step(
            s,
            setup_request_bytes(
                device_name,
                wifi_ssid,
                wifi_password,
                device_password,
                auth_required,
                skip_wifi,
            ),
            bypass_auth,
        ) == StepView::Perform(
            EffectView::Persist {
                data: entered_setup(
                    s.data.device_name,
                    device_name,
                    wifi_ssid,
                    wifi_password,
                    device_password,
                    auth_required,
                    skip_wifi,
                ),
                authenticated: Some(!bypass_auth),
                ok: RESPONSE_SETUP_OK,
                failed: RESPONSE_SETUP_FAILED,
            },
        ),
        effect_outcome(
            s,
            EffectView::Persist {
                data: entered_setup(
                    s.data.device_name,
                    device_name,
                    wifi_ssid,
                    wifi_password,
                    device_password,
                    auth_required,
                    skip_wifi,
                ),
                authenticated: Some(!bypass_auth),
                ok: RESPONSE_SETUP_OK,
                failed: RESPONSE_SETUP_FAILED,
            },
            true,
        ) == (
            StateView {
                data: entered_setup(
                    s.data.device_name,
                    device_name,
                    wifi_ssid,
                    wifi_password,
                    device_password,
                    auth_required,
                    skip_wifi,
                ),
                authenticated: !bypass_auth,
            },
            seq![RESPONSE_SETUP_OK],
        ),
{
    lemma_setup_request_applied(
        s,
        device_name,
        wifi_ssid,
        wifi_password,
        device_password,
        auth_required,
        skip_wifi,
        bypass_auth,
        0,
    );
}

/// Over BLE, on a configured device that requires authentication, the
/// companion's authentication request authenticates the peer exactly when
/// it carries the (non-empty) stored password.
pub proof fn lemma_authenticate_request(s: StateView, password: Seq<char>, uptime_secs: u32)
    requires
        utf8(password).len() <= 255,
        s.data.configured,
        s.data.auth_required,
    ensures
        request_step(
            s,
            seq![COMMAND_AUTHENTICATE] + field_encoding(password),
            false,
            uptime_secs,
        ).0.authenticated == (s.data.device_password.len() > 0 && password
            == s.data.device_password),
{
    lemma_field_roundtrip(seq![COMMAND_AUTHENTICATE], password, seq![]);
    assert(seq![COMMAND_AUTHENTICATE] + field_encoding(password) =~= seq![COMMAND_AUTHENTICATE]
        + field_encoding(password) + seq![]);
}

/// Over BLE, a device that is unconfigured or requires no password accepts
/// every authentication request the companion builds, whatever password it
/// carries: it answers that authentication succeeded, the peer becomes
/// authenticated and nothing else changes, so the device no longer refuses
/// the peer's requests.
pub proof fn lemma_open_device_accepts_authentication(
    s: StateView,
    password: Seq<char>,
    uptime_secs: u32,
)
    requires
        utf8(password).len() <= 255,
        !s.data.configured || !s.data.auth_required,
    ensures
        request_step(
            s,
            seq![COMMAND_AUTHENTICATE] + field_encoding(password),
            false,
            uptime_secs,
        ) == (StateView { authenticated: true, ..s }, StepView::Reply(seq![RESPONSE_AUTH_OK])),
        !gate_refuses(
            request_step(
                s,
                seq![COMMAND_AUTHENTICATE] + field_encoding(password),
                false,
                uptime_secs,
            ).0,
            false,
        ),
{
    lemma_field_roundtrip(seq![COMMAND_AUTHENTICATE], password, seq![]);
    assert(seq![COMMAND_AUTHENTICATE] + field_encoding(password) =~= seq![COMMAND_AUTHENTICATE]
        + field_encoding(password) + seq![]);
}

/// How the device answers an authentication request the companion builds:
/// over the serial link it accepts and changes nothing; over BLE, on a
/// configured device that requires a password, it answers that
/// authentication succeeded and authenticates the peer exactly when the
/// request carries the (non-empty) stored password, and otherwise answers
/// that it failed and leaves the peer unauthenticated.
pub proof fn lemma_authentication_answer(s: StateView, password: Seq<char>, uptime_secs: u32)
    requires
        utf8(password).len() <= 255,
    ensures
        request_step(
            s,
            seq![COMMAND_AUTHENTICATE] + field_encoding(password),
            true,
            uptime_secs,
        ) == (s, StepView::Reply(seq![RESPONSE_AUTH_OK])),
        s.data.configured && s.data.auth_required ==> request_step(
            s,
            seq![COMMAND_AUTHENTICATE] + field_encoding(password),
            false,
            uptime_secs,
        ) == (
            StateView {
                authenticated: s.data.device_password.len() > 0 && password
                    == s.data.device_password,
                ..s
            },
            StepView::Reply(
                seq![
                    if s.data.device_password.len() > 0 && password == s.data.device_password {
                        RESPONSE_AUTH_OK
                    } else {
                        RESPONSE_AUTH_FAILED
                    },
                ],
            ),
        ),
{
    lemma_field_roundtrip(seq![COMMAND_AUTHENTICATE], password, seq![]);
    assert(seq![COMMAND_AUTHENTICATE] + field_encoding(password) =~= seq![COMMAND_AUTHENTICATE]
        + field_encoding(password) + seq![]);
}

/// When the device may be changed, a password change with a non-empty new
/// password and the right current password (not checked over the serial
/// link, nor when no password is required) stores the new password and
/// requires authentication from then on.
pub proof fn lemma_change_password_request(
    s: StateView,
    current: Seq<char>,
    new_password: Seq<char>,
    bypass_auth: bool,
    uptime_secs: u32,
)
    requires
        utf8(current).len() <= 255,
        utf8(new_password).len() <= 255,
        new_password.len() > 0,
        !gate_refuses(s, bypass_auth),
        bypass_auth || !s.data.configured || !s.data.auth_required || current
            == s.data.device_password,
    ensures
        request_step(
            s,
            two_field_request(COMMAND_CHANGE_PASSWORD, current, new_password),
            bypass_auth,
            uptime_secs,
        ) == (
            s,
            StepView::Perform(
                EffectView::Persist {
                    data: SetupView { device_password: new_password, auth_required: true, ..s.data },
                    authenticated: None,
                    ok: RESPONSE_CHANGE_PASSWORD_OK,
                    failed: RESPONSE_ERROR,
                },
            ),
        ),
{
    let f1 = field_encoding(current);
    let f2 = field_encoding(new_password);
    let head = seq![COMMAND_CHANGE_PASSWORD];
    lemma_field_roundtrip(head, current, f2);
    lemma_field_roundtrip(head + f1, new_password, seq![]);
    assert(two_field_request(COMMAND_CHANGE_PASSWORD, current, new_password) =~= head + f1 + f2);
    assert(head + f1 + f2 =~= head + f1 + f2 + seq![]);
}

/// When the device may be changed, a WiFi update with a non-empty network
/// name stores the network name and password and requires WiFi.
pub proof fn lemma_update_wifi_request(
    s: StateView,
    ssid: Seq<char>,
    password: Seq<char>,
    bypass_auth: bool,
    uptime_secs: u32,
)
    requires
        utf8(ssid).len() <= 255,
        utf8(password).len() <= 255,
        ssid.len() > 0,
        !gate_refuses(s, bypass_auth),
    ensures
        request_step(s, two_field_request(COMMAND_UPDATE_WIFI, ssid, password), bypass_auth, uptime_secs)
            == (
            s,
            StepView::Perform(
                EffectView::Persist {
                    data: SetupView {
                        wifi_ssid: ssid,
                        wifi_password: password,
                        wifi_required: true,
                        ..s.data
                    },
                    authenticated: None,
                    ok: RESPONSE_UPDATE_WIFI_OK,
                    failed: RESPONSE_ERROR,
                },
            ),
        ),
{
    let f1 = field_encoding(ssid);
    let f2 = field_encoding(password);
    let head = seq![COMMAND_UPDATE_WIFI];
    lemma_field_roundtrip(head, ssid, f2);
    lemma_field_roundtrip(head + f1, password, seq![]);
    assert(two_field_request(COMMAND_UPDATE_WIFI, ssid, password) =~= head + f1 + f2);
    assert(head + f1 + f2 =~= head + f1 + f2 + seq![]);
}

/// The device reads the firmware-update start request as an update of the
/// size it carries (the size modulo 2^32).
pub proof fn lemma_ota_begin_request(s: StateView, total_size: usize, bypass_auth: bool, uptime_secs: u32)
    ensures
        request_step(s, ota_begin_request(total_size), bypass_auth, uptime_secs) == (
            s,
            StepView::Perform(EffectView::OtaBegin { total_size: (total_size as u32) as int }),
        ),
{
    lemma_le_u32_roundtrip(total_size as u32);
}

/// The device reads each firmware-data request as the chunk it carries.
pub proof fn lemma_ota_data_request(
    s: StateView,
    image: Seq<u8>,
    seq: usize,
    chunk_size: usize,
    bypass_auth: bool,
    uptime_secs: u32,
)
    requires
        chunk_size > 0,
        seq * chunk_size < image.len(),
    ensures
        request_step(s, ota_data_request(image, seq, chunk_size), bypass_auth, uptime_secs) == (
            s,
            StepView::Perform(EffectView::OtaData { payload: ota_chunk(image, seq as int, chunk_size as int) }),
        ),
{
    let req = ota_data_request(image, seq, chunk_size);
    assert(req.subrange(5, req.len() as int) =~= ota_chunk(image, seq as int, chunk_size as int));
}

} // verus!
