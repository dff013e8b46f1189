//! The device's provisioning configuration and its in-memory session state.
use vstd::prelude::*;
use vstd::string::*;
use crate::wire::{flag_byte, le_bytes_u16, push_u16_le, spec_flag, FIRMWARE_MANUFACTURER_ID};

verus! {

/// Name advertised by a device that has no name of its own.
pub const DEFAULT_DEVICE_NAME: &'static str = "Unconfigured Geo";

/// Provisioning data kept in non-volatile storage.
#[derive(Debug, PartialEq, Eq)]
pub struct DeviceSetupData {
    pub device_name: String,
    pub wifi_ssid: String,
    pub wifi_password: String,
    pub device_password: String,
    pub auth_required: bool,
    pub wifi_required: bool,
    pub configured: bool,
}

/// Mathematical view of `DeviceSetupData`.
pub struct SetupView {
    pub device_name: Seq<char>,
    pub wifi_ssid: Seq<char>,
    pub wifi_password: Seq<char>,
    pub device_password: Seq<char>,
    pub auth_required: bool,
    pub wifi_required: bool,
    pub configured: bool,
}

impl View for DeviceSetupData {
    type V = SetupView;

    open spec fn view(&self) -> SetupView {
        SetupView {
            device_name: self.device_name@,
            wifi_ssid: self.wifi_ssid@,
            wifi_password: self.wifi_password@,
            device_password: self.device_password@,
            auth_required: self.auth_required,
            wifi_required: self.wifi_required,
            configured: self.configured,
        }
    }
}

/// The configuration of a device fresh from the factory.
pub open spec fn default_setup() -> SetupView {
    SetupView {
        device_name: seq![],
        wifi_ssid: seq![],
        wifi_password: seq![],
        device_password: seq![],
        auth_required: true,
        wifi_required: true,
        configured: false,
    }
}

/// A configuration is complete when a configured device has every
/// credential its settings call for: a network name when WiFi is required
/// and a password when authentication is required.
pub open spec fn setup_complete(d: SetupView) -> bool {
    d.configured ==> {
        &&& d.wifi_required ==> d.wifi_ssid.len() > 0
        &&& d.auth_required ==> d.device_password.len() > 0
    }
}

impl Clone for DeviceSetupData {
    fn clone(&self) -> (r: Self)
        ensures
            r@ == self@,
    {
        DeviceSetupData {
            device_name: self.device_name.clone(),
            wifi_ssid: self.wifi_ssid.clone(),
            wifi_password: self.wifi_password.clone(),
            device_password: self.device_password.clone(),
            auth_required: self.auth_required,
            wifi_required: self.wifi_required,
            configured: self.configured,
        }
    }
}

impl Default for DeviceSetupData {
    fn default() -> (r: Self)
        ensures
            r@ == default_setup(),
    {
        DeviceSetupData {
            device_name: String::new(),
            wifi_ssid: String::new(),
            wifi_password: String::new(),
            device_password: String::new(),
            auth_required: true,
            wifi_required: true,
            configured: false,
        }
    }
}

/// A value read back from non-volatile storage.
#[derive(Debug, PartialEq, Eq)]
pub enum StoredValue<T> {
    /// The storage could not be read.
    Unreadable,
    /// No value is stored under the key.
    Missing,
    Present(T),
}

/// The raw values stored for a configuration, one per storage key.
#[derive(Debug, PartialEq, Eq)]
pub struct StoredSetup {
    pub configured: StoredValue<u8>,
    pub device_name: StoredValue<String>,
    pub wifi_ssid: StoredValue<String>,
    pub wifi_password: StoredValue<String>,
    pub device_password: StoredValue<String>,
    pub auth_required: StoredValue<u8>,
    pub wifi_required: StoredValue<u8>,
}

/// A stored flag: an unreadable flag counts as `if_unreadable`, a missing
/// one as false, a stored byte as true exactly when it is 1.
pub open spec fn stored_flag(v: StoredValue<u8>, if_unreadable: bool) -> bool {
    match v {
        StoredValue::Unreadable => if_unreadable,
        StoredValue::Missing => false,
        StoredValue::Present(b) => b == 1,
    }
}

/// A stored string, or `fallback` when it is unreadable or missing.
pub open spec fn stored_text(v: StoredValue<String>, fallback: Seq<char>) -> Seq<char> {
    match v {
        StoredValue::Present(s) => s@,
        _ => fallback,
    }
}

/// The configuration that the stored values describe: an incomplete one
/// (see `setup_complete`) falls back to unconfigured.
pub open spec fn loaded_setup(st: StoredSetup) -> SetupView {
    let d = SetupView {
        device_name: stored_text(st.device_name, DEFAULT_DEVICE_NAME@),
        wifi_ssid: stored_text(st.wifi_ssid, seq![]),
        wifi_password: stored_text(st.wifi_password, seq![]),
        device_password: stored_text(st.device_password, seq![]),
        auth_required: stored_flag(st.auth_required, true),
        wifi_required: stored_flag(st.wifi_required, true),
        configured: stored_flag(st.configured, false),
    };
    if setup_complete(d) { d } else { SetupView { configured: false, ..d } }
}

fn read_flag(v: StoredValue<u8>, if_unreadable: bool) -> (b: bool)
    ensures
        b == stored_flag(v, if_unreadable),
{
    match v {
        StoredValue::Unreadable => if_unreadable,
        StoredValue::Missing => false,
        StoredValue::Present(b) => b == 1,
    }
}

fn read_text(v: StoredValue<String>, fallback: &str) -> (s: String)
    ensures
        s@ == stored_text(v, fallback@),
{
    match v {
        StoredValue::Present(s) => s,
        _ => String::from_str(fallback),
    }
}

impl DeviceSetupData {
    /// Rebuilds the configuration from the values read back from storage.
    pub fn from_stored(stored: StoredSetup) -> (r: DeviceSetupData)
        ensures
            r@ == loaded_setup(stored),
            setup_complete(r@),
    {
        let mut data = DeviceSetupData {
            configured: read_flag(stored.configured, false),
            device_name: read_text(stored.device_name, DEFAULT_DEVICE_NAME),
            wifi_ssid: read_text(stored.wifi_ssid, ""),
            wifi_password: read_text(stored.wifi_password, ""),
            device_password: read_text(stored.device_password, ""),
            auth_required: read_flag(stored.auth_required, true),
            wifi_required: read_flag(stored.wifi_required, true),
        };
        proof {
            reveal_strlit("");
            assert(""@ =~= Seq::<char>::empty());
        }
        if data.configured && ((data.wifi_required && data.wifi_ssid.as_str().is_empty()) || (
        data.auth_required && data.device_password.as_str().is_empty())) {
            data.configured = false;
        }
        data
    }

    /// The values to store for this configuration, one per storage key.
    pub fn to_stored(&self) -> (r: StoredSetup)
        ensures
            r.configured == StoredValue::Present(spec_flag(self.configured)),
            r.auth_required == StoredValue::Present(spec_flag(self.auth_required)),
            r.wifi_required == StoredValue::Present(spec_flag(self.wifi_required)),
            r.device_name matches StoredValue::Present(s) && s@ == self.device_name@,
            r.wifi_ssid matches StoredValue::Present(s) && s@ == self.wifi_ssid@,
            r.wifi_password matches StoredValue::Present(s) && s@ == self.wifi_password@,
            r.device_password matches StoredValue::Present(s) && s@ == self.device_password@,
    {
        StoredSetup {
            configured: StoredValue::Present(flag_byte(self.configured)),
            device_name: StoredValue::Present(self.device_name.clone()),
            wifi_ssid: StoredValue::Present(self.wifi_ssid.clone()),
            wifi_password: StoredValue::Present(self.wifi_password.clone()),
            device_password: StoredValue::Present(self.device_password.clone()),
            auth_required: StoredValue::Present(flag_byte(self.auth_required)),
            wifi_required: StoredValue::Present(flag_byte(self.wifi_required)),
        }
    }
}

/// How each stored value is read back: a flag byte counts as set exactly
/// when it is present and equal to 1, except that an unreadable
/// authentication or WiFi flag counts as required; a text counts when it is
/// present, otherwise the device name falls back to the default one and the
/// other texts to empty. The device counts as set up only when the stored
/// configured flag is present and equal to 1 and the configuration has the
/// network name and the password that its flags call for.
pub proof fn lemma_load_reads_each_key(st: StoredSetup)
    ensures
        loaded_setup(st).auth_required <==> (st.auth_required == StoredValue::<u8>::Present(1u8)
            || st.auth_required is Unreadable),
        loaded_setup(st).wifi_required <==> (st.wifi_required == StoredValue::<u8>::Present(1u8)
            || st.wifi_required is Unreadable),
        st.device_name matches StoredValue::Present(n) ==> loaded_setup(st).device_name == n@,
        !(st.device_name is Present) ==> loaded_setup(st).device_name == DEFAULT_DEVICE_NAME@,
        st.wifi_ssid matches StoredValue::Present(n) ==> loaded_setup(st).wifi_ssid == n@,
        !(st.wifi_ssid is Present) ==> loaded_setup(st).wifi_ssid.len() == 0,
        st.device_password matches StoredValue::Present(n) ==> loaded_setup(st).device_password
            == n@,
        !(st.device_password is Present) ==> loaded_setup(st).device_password.len() == 0,
        st.wifi_password matches StoredValue::Present(n) ==> loaded_setup(st).wifi_password == n@,
        !(st.wifi_password is Present) ==> loaded_setup(st).wifi_password.len() == 0,
        loaded_setup(st).configured <==> (st.configured == StoredValue::<u8>::Present(1u8) && (
        loaded_setup(st).wifi_required ==> loaded_setup(st).wifi_ssid.len() > 0) && (loaded_setup(
            st,
        ).auth_required ==> loaded_setup(st).device_password.len() > 0)),
{
}

/// A loaded configuration counts as set up only when the stored configured
/// flag is present and equal to 1: a missing, unreadable or other flag loads
/// as unconfigured.
pub proof fn lemma_configured_only_when_stored(st: StoredSetup)
    ensures
        loaded_setup(st).configured ==> st.configured == StoredValue::<u8>::Present(1u8),
        st.configured != StoredValue::<u8>::Present(1u8) ==> !loaded_setup(st).configured,
{
}

/// Storage that cannot be read at all loads as an unconfigured device with
/// the default name, no network and no passwords, that requires both
/// authentication and WiFi.
pub proof fn lemma_unreadable_storage_loads_unconfigured()
    ensures
        loaded_setup(
            StoredSetup {
                configured: StoredValue::Unreadable,
                device_name: StoredValue::Unreadable,
                wifi_ssid: StoredValue::Unreadable,
                wifi_password: StoredValue::Unreadable,
                device_password: StoredValue::Unreadable,
                auth_required: StoredValue::Unreadable,
                wifi_required: StoredValue::Unreadable,
            },
        ) == (SetupView {
            device_name: DEFAULT_DEVICE_NAME@,
            wifi_ssid: seq![],
            wifi_password: seq![],
            device_password: seq![],
            auth_required: true,
            wifi_required: true,
            configured: false,
        }),
{
}

/// Storage that holds nothing (a device fresh from the factory) loads as an
/// unconfigured device with the default name, no network, no passwords, and
/// neither authentication nor WiFi required.
pub proof fn lemma_empty_storage_loads_unconfigured()
    ensures
        loaded_setup(
            StoredSetup {
                configured: StoredValue::Missing,
                device_name: StoredValue::Missing,
                wifi_ssid: StoredValue::Missing,
                wifi_password: StoredValue::Missing,
                device_password: StoredValue::Missing,
                auth_required: StoredValue::Missing,
                wifi_required: StoredValue::Missing,
            },
        ) == (SetupView {
            device_name: DEFAULT_DEVICE_NAME@,
            wifi_ssid: seq![],
            wifi_password: seq![],
            device_password: seq![],
            auth_required: false,
            wifi_required: false,
            configured: false,
        }),
{
}

/// A complete configuration that was stored loads back unchanged.
pub proof fn lemma_store_then_load(d: SetupView, st: StoredSetup)
    requires
        setup_complete(d),
        st.configured == StoredValue::Present(spec_flag(d.configured)),
        st.auth_required == StoredValue::Present(spec_flag(d.auth_required)),
        st.wifi_required == StoredValue::Present(spec_flag(d.wifi_required)),
        st.device_name matches StoredValue::Present(s) && s@ == d.device_name,
        st.wifi_ssid matches StoredValue::Present(s) && s@ == d.wifi_ssid,
        st.wifi_password matches StoredValue::Present(s) && s@ == d.wifi_password,
        st.device_password matches StoredValue::Present(s) && s@ == d.device_password,
    ensures
        loaded_setup(st) == d,
{
}

/// The device's session state: its configuration and whether the current
/// BLE peer has authenticated.
#[derive(Debug, PartialEq, Eq)]
pub struct State {
    pub data: DeviceSetupData,
    pub authenticated: bool,
}

/// Mathematical view of `State`.
pub struct StateView {
    pub data: SetupView,
    pub authenticated: bool,
}

impl View for State {
    type V = StateView;

    open spec fn view(&self) -> StateView {
        StateView { data: self.data@, authenticated: self.authenticated }
    }
}

/// The name under which the device advertises itself.
pub open spec fn advertised_name(d: SetupView) -> Seq<char> {
    if d.device_name.len() > 0 { d.device_name } else { DEFAULT_DEVICE_NAME@ }
}

/// The manufacturer data of the BLE advertisement: the manufacturer
/// identifier, then whether setup is complete.
pub open spec fn manufacturer_payload(configured: bool) -> Seq<u8> {
    le_bytes_u16(FIRMWARE_MANUFACTURER_ID) + seq![spec_flag(configured)]
}

impl State {
    /// A session over the given configuration, with no peer authenticated.
    pub fn new(data: DeviceSetupData) -> (r: State)
        ensures
            r@ == (StateView { data: data@, authenticated: false }),
    {
        State { data, authenticated: false }
    }

    pub fn is_configured(&self) -> (r: bool)
        ensures
            r == self.data.configured,
    {
        self.data.configured
    }

    /// Forgets the authentication of the BLE peer (on disconnect).
    pub fn reset_authentication(&mut self)
        ensures
            final(self)@ == (StateView { authenticated: false, ..old(self)@ }),
    {
        self.authenticated = false;
    }

    pub fn device_name_for_advertising(&self) -> (r: String)
        ensures
            r@ == advertised_name(self.data@),
    {
        if !self.data.device_name.as_str().is_empty() {
            self.data.device_name.clone()
        } else {
            String::from_str(DEFAULT_DEVICE_NAME)
        }
    }

    /// The stored network name and password.
    pub fn load_wifi_credentials(&self) -> (r: (String, String))
        ensures
            r.0@ == self.data.wifi_ssid@,
            r.1@ == self.data.wifi_password@,
    {
        (self.data.wifi_ssid.clone(), self.data.wifi_password.clone())
    }

    /// The manufacturer data to advertise.
    pub fn manufacturer_data(&self) -> (r: Vec<u8>)
        ensures
            r@ == manufacturer_payload(self.data.configured),
    {
        let mut buf = Vec::new();
        push_u16_le(&mut buf, FIRMWARE_MANUFACTURER_ID);
        buf.push(flag_byte(self.data.configured));
        proof {
            assert(buf@ =~= manufacturer_payload(self.data.configured));
        }
        buf
    }
}

} // verus!
