//! Decisions the device takes before joining a WiFi network.
use vstd::prelude::*;
use crate::fields::utf8;

verus! {

#[verifier::external_type_specification]
#[verifier::external_body]
pub struct ExBoundedString<const N: usize>(heapless::String<N>);

/// Longest network name the radio accepts, in bytes.
pub const SSID_CAPACITY: usize = 32;
/// Longest network password the radio accepts, in bytes.
pub const PASSWORD_CAPACITY: usize = 64;

/// The text held by a network-name buffer of the radio.
pub uninterp spec fn ssid_buffer_text(b: heapless::String<32>) -> Seq<char>;

/// The text held by a password buffer of the radio.
pub uninterp spec fn password_buffer_text(b: heapless::String<64>) -> Seq<char>;

/// `heapless::String::<32>::try_from(&str)`.
///
/// Trusted: heapless copies the string's UTF-8 bytes when they fit the 32
/// bytes of capacity, so the buffer then holds the same text, and fails
/// otherwise.
#[verifier::external_body]
fn ssid_buffer(s: &str) -> (r: Result<heapless::String<32>, ()>)
    ensures
        r is Ok <==> utf8(s@).len() <= SSID_CAPACITY,
        r matches Ok(b) ==> ssid_buffer_text(b) == s@,
{
    heapless::String::<32>::try_from(s)
}

/// `heapless::String::<64>::try_from(&str)`.
///
/// Trusted: heapless copies the string's UTF-8 bytes when they fit the 64
/// bytes of capacity, so the buffer then holds the same text, and fails
/// otherwise.
#[verifier::external_body]
fn password_buffer(s: &str) -> (r: Result<heapless::String<64>, ()>)
    ensures
        r is Ok <==> utf8(s@).len() <= PASSWORD_CAPACITY,
        r matches Ok(b) ==> password_buffer_text(b) == s@,
{
    heapless::String::<64>::try_from(s)
}

/// Why credentials cannot be handed to the radio.
#[derive(Debug, Clone, Copy, PartialEq, Eq, Structural)]
pub enum WifiCredentialError {
    SsidTooLong,
    PasswordTooLong,
}

impl WifiCredentialError {
    /// The message logged for this error.
    pub fn message(self) -> (r: &'static str)
        ensures
            self == WifiCredentialError::SsidTooLong ==> r@ == "WiFi SSID too long (max 32 bytes)"@,
            self == WifiCredentialError::PasswordTooLong ==> r@
                == "WiFi password too long (max 64 bytes)"@,
    {
        match self {
            WifiCredentialError::SsidTooLong => "WiFi SSID too long (max 32 bytes)",
            WifiCredentialError::PasswordTooLong => "WiFi password too long (max 64 bytes)",
        }
    }
}

/// The credentials in the form the radio takes, holding the given name and
/// password: refused when the network name is longer than 32 bytes, or else
/// when the password is longer than 64 bytes.
pub fn client_credentials(ssid: &str, password: &str) -> (r: Result<
    (heapless::String<32>, heapless::String<64>),
    WifiCredentialError,
>)
    ensures
        r is Ok <==> (utf8(ssid@).len() <= SSID_CAPACITY && utf8(password@).len()
            <= PASSWORD_CAPACITY),
        utf8(ssid@).len() > SSID_CAPACITY ==> r == Err::<
            (heapless::String<32>, heapless::String<64>),
            WifiCredentialError,
        >(WifiCredentialError::SsidTooLong),
        utf8(ssid@).len() <= SSID_CAPACITY && utf8(password@).len() > PASSWORD_CAPACITY ==> r
            == Err::<(heapless::String<32>, heapless::String<64>), WifiCredentialError>(
            WifiCredentialError::PasswordTooLong,
        ),
        r matches Ok((s, p)) ==> ssid_buffer_text(s) == ssid@ && password_buffer_text(p)
            == password@,
{
    let ssid_bounded = match ssid_buffer(ssid) {
        Ok(s) => s,
        Err(()) => return Err(WifiCredentialError::SsidTooLong),
    };
    let password_bounded = match password_buffer(password) {
        Ok(p) => p,
        Err(()) => return Err(WifiCredentialError::PasswordTooLong),
    };
    Ok((ssid_bounded, password_bounded))
}

/// Whether to try joining a network: only when one is configured.
pub fn should_connect(ssid: &str) -> (r: bool)
    ensures
        r == (ssid@.len() > 0),
{
    !ssid.is_empty()
}

/// The next thing to do while joining a network anew with new credentials.
#[derive(Debug, Clone, Copy, PartialEq, Eq, Structural)]
pub enum ReconnectAction {
    /// No network is configured: nothing to do.
    Skip,
    /// Leave the network the radio is on.
    Disconnect,
    /// Start the radio.
    Start,
    /// Hand the radio the credentials and join.
    Connect,
}

/// The first decision of a reconnection, given whether the radio is started
/// and connected: nothing when no network is configured; leave the current
/// network when the radio is started and connected; start the radio when it
/// is not started; otherwise join at once.
pub fn reconnect_first_action(ssid: &str, started: bool, connected: bool) -> (r: ReconnectAction)
    ensures
        r == (if ssid@.len() == 0 {
            ReconnectAction::Skip
        } else if started && connected {
            ReconnectAction::Disconnect
        } else if !started {
            ReconnectAction::Start
        } else {
            ReconnectAction::Connect
        }),
{
    if !should_connect(ssid) {
        ReconnectAction::Skip
    } else if started && connected {
        ReconnectAction::Disconnect
    } else if !started {
        ReconnectAction::Start
    } else {
        ReconnectAction::Connect
    }
}

/// The decision after leaving the current network (whether or not that
/// worked), given whether the radio is started: start it if it is not,
/// otherwise join.
pub fn reconnect_after_disconnect(started: bool) -> (r: ReconnectAction)
    ensures
        r == (if started { ReconnectAction::Connect } else { ReconnectAction::Start }),
{
    if started {
        ReconnectAction::Connect
    } else {
        ReconnectAction::Start
    }
}

/// How the device authenticates to the network.
#[derive(Debug, Clone, Copy, PartialEq, Eq, Structural)]
pub enum WifiAuth {
    Open,
    Wpa2Personal,
}

/// An open network when no password is given, WPA2 personal otherwise.
pub fn auth_method_for(password: &str) -> (r: WifiAuth)
    ensures
        r == (if password@.len() == 0 { WifiAuth::Open } else { WifiAuth::Wpa2Personal }),
{
    if password.is_empty() {
        WifiAuth::Open
    } else {
        WifiAuth::Wpa2Personal
    }
}

} // verus!
