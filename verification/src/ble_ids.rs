//! Identifiers of the device's BLE service and characteristics, and the
//! choice of the firmware endpoints among what a connected peer offers.
use vstd::prelude::*;
use vstd::string::*;

verus! {

pub const FIRMWARE_SERVICE_UUID: &'static str = "01171718-ce62-6a9a-5541-b839b04a7bd1";
pub const FIRMWARE_RX_CHARACTERISTIC_UUID: &'static str = "02171718-ce62-6a9a-5541-b839b04a7bd1";
pub const FIRMWARE_TX_CHARACTERISTIC_UUID: &'static str = "03171718-ce62-6a9a-5541-b839b04a7bd1";

/// What `uuid::Uuid::parse_str` makes of a text: the 128-bit value of the
/// identifier (`Uuid::as_u128`) when it accepts the text, else the display
/// text of the error it gives.
pub uninterp spec fn parsed_uuid(text: Seq<char>) -> Result<u128, Seq<char>>;

/// Whether a text is a well-formed identifier.
pub open spec fn uuid_text_accepted(text: Seq<char>) -> bool {
    parsed_uuid(text) is Ok
}

/// The value of an accepted identifier text.
pub open spec fn uuid_value(text: Seq<char>) -> u128 {
    parsed_uuid(text)->Ok_0
}

/// The parser's reason for refusing a text.
pub open spec fn uuid_refusal(text: Seq<char>) -> Seq<char> {
    parsed_uuid(text)->Err_0
}

/// `uuid::Uuid::parse_str`, with the identifier taken as its `u128` value
/// and an error as its display text.
///
/// Trusted: the parser's outcome depends on the text alone and is named
/// `parsed_uuid`; the call gives back what that name holds.
#[verifier::external_body]
fn uuid_parse_str(value: &str) -> (r: Result<u128, String>)
    ensures
        r matches Ok(v) ==> (parsed_uuid(value@) matches Ok(w) && w == v),
        r matches Err(e) ==> (parsed_uuid(value@) matches Err(t) && t == e@),
{
    match uuid::Uuid::parse_str(value) {
        Ok(id) => Ok(id.as_u128()),
        Err(error) => Err(error.to_string()),
    }
}

/// The start of the message of a refused identifier.
pub open spec fn invalid_uuid_prefix(value: Seq<char>) -> Seq<char> {
    "Invalid UUID '"@ + value + "': "@
}

/// The outcome of parsing `value`, given what the parser made of it: the
/// identifier's value, or the refusal described with the text and the
/// parser's reason.
pub fn uuid_parse_outcome(value: &str, parsed: Result<u128, String>) -> (r: Result<u128, String>)
    ensures
        r is Ok <==> parsed is Ok,
        r matches Ok(v) ==> (parsed matches Ok(w) && v == w),
        r matches Err(m) ==> (parsed matches Err(e) && m@ == invalid_uuid_prefix(value@) + e@),
{
    match parsed {
        Ok(id) => Ok(id),
        Err(reason) => Err(
            String::from_str("Invalid UUID '").concat(value).concat("': ").concat(reason.as_str()),
        ),
    }
}

/// Parses a textual identifier into its 128-bit value, describing a refusal
/// with the text and the parser's reason.
pub fn parse_uuid(value: &str) -> (r: Result<u128, String>)
    ensures
        r is Ok <==> uuid_text_accepted(value@),
        r matches Ok(v) ==> v == uuid_value(value@),
        r matches Err(m) ==> m@ == invalid_uuid_prefix(value@) + uuid_refusal(value@),
{
    uuid_parse_outcome(value, uuid_parse_str(value))
}

/// The position of the first identifier equal to `wanted`.
pub fn find_first(ids: &Vec<u128>, wanted: u128) -> (r: Option<usize>)
    ensures
        r matches Some(i) ==> i < ids.len() && ids@[i as int] == wanted && forall|j: int|
            0 <= j < i ==> ids@[j] != wanted,
        r is None <==> forall|j: int| 0 <= j < ids.len() ==> ids@[j] != wanted,
{
    let mut i: usize = 0;
    while i < ids.len()
        invariant
            i <= ids.len(),
            forall|j: int| 0 <= j < i ==> ids@[j] != wanted,
        decreases ids.len() - i,
    {
        if ids[i] == wanted {
            return Some(i);
        }
        i = i + 1;
    }
    None
}

pub const MISSING_FIRMWARE_SERVICE: &'static str =
    "Connected device is missing required firmware service";
pub const MISSING_RX_CHARACTERISTIC: &'static str = "Missing firmware RX characteristic";
pub const MISSING_TX_CHARACTERISTIC: &'static str = "Missing firmware TX characteristic";

/// Which of a connected peer's characteristics carry firmware requests
/// (`rx`) and replies (`tx`).
///
/// The peer must offer the firmware service; then the first characteristic
/// with each identifier is taken. Refused, in this order, when the service is
/// missing, when no characteristic has the `rx` identifier, and when none has
/// the `tx` identifier.
pub fn select_firmware_endpoints(
    service_ids: &Vec<u128>,
    characteristic_ids: &Vec<u128>,
    service: u128,
    rx: u128,
    tx: u128,
) -> (r: Result<(usize, usize), &'static str>)
    ensures
        !service_ids@.contains(service) ==> r == Err::<(usize, usize), &'static str>(
            MISSING_FIRMWARE_SERVICE,
        ),
        service_ids@.contains(service) && !characteristic_ids@.contains(rx) ==> r == Err::<
            (usize, usize),
            &'static str,
        >(MISSING_RX_CHARACTERISTIC),
        service_ids@.contains(service) && characteristic_ids@.contains(rx)
            && !characteristic_ids@.contains(tx) ==> r == Err::<(usize, usize), &'static str>(
            MISSING_TX_CHARACTERISTIC,
        ),
        r matches Ok((i, j)) ==> {
            &&& service_ids@.contains(service)
            &&& i < characteristic_ids.len() && characteristic_ids@[i as int] == rx
            &&& forall|k: int| 0 <= k < i ==> characteristic_ids@[k] != rx
            &&& j < characteristic_ids.len() && characteristic_ids@[j as int] == tx
            &&& forall|k: int| 0 <= k < j ==> characteristic_ids@[k] != tx
        },
        r is Ok <==> (service_ids@.contains(service) && characteristic_ids@.contains(rx)
            && characteristic_ids@.contains(tx)),
{
    match find_first(service_ids, service) {
        None => {
            proof {
                assert(!service_ids@.contains(service));
            }
            return Err(MISSING_FIRMWARE_SERVICE);
        },
        Some(_) => {},
    }
    let rx_index = match find_first(characteristic_ids, rx) {
        None => {
            proof {
                assert(!characteristic_ids@.contains(rx));
            }
            return Err(MISSING_RX_CHARACTERISTIC);
        },
        Some(i) => i,
    };
    let tx_index = match find_first(characteristic_ids, tx) {
        None => {
            proof {
                assert(!characteristic_ids@.contains(tx));
            }
            return Err(MISSING_TX_CHARACTERISTIC);
        },
        Some(j) => j,
    };
    Ok((rx_index, tx_index))
}

} // verus!
