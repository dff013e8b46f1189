//! The companion's decisions while looking for a BLE device to connect to.
use vstd::prelude::*;
use vstd::string::*;

verus! {

/// How many times the companion looks for a device before giving up.
pub const DISCOVERY_RETRY_ATTEMPTS: usize = 5;
/// The pause after an attempt that did not find the device, in milliseconds.
pub const DISCOVERY_RETRY_DELAY_MS: u64 = 600;

/// How one attempt to find the device went.
#[derive(Debug, Clone, Copy, PartialEq, Eq, Structural)]
pub enum AttemptOutcome {
    /// No Bluetooth adapter could be had.
    AdapterUnavailable,
    /// The adapter could not list the peripherals.
    EnumerationFailed,
    /// The peripherals were listed and the device was not among them.
    NotFound,
    /// The device was among the peripherals.
    Found,
}

/// What to do after an attempt.
#[derive(Debug, Clone, Copy, PartialEq, Eq, Structural)]
pub enum DiscoveryAction {
    /// Use the device that was found.
    UseFound,
    /// Pause, then try again.
    RetryAfterDelay,
    /// Pause, then report the device as not discoverable.
    GiveUpAfterDelay,
}

/// The decision after attempt number `attempt` (counted from 1): use the
/// device once found; otherwise pause, and try again unless that was the
/// last attempt.
pub open spec fn discovery_decision(attempt: int, outcome: AttemptOutcome) -> DiscoveryAction {
    if outcome is Found {
        DiscoveryAction::UseFound
    } else if attempt < DISCOVERY_RETRY_ATTEMPTS {
        DiscoveryAction::RetryAfterDelay
    } else {
        DiscoveryAction::GiveUpAfterDelay
    }
}

/// Decides what follows attempt number `attempt`.
pub fn after_discovery_attempt(attempt: usize, outcome: AttemptOutcome) -> (r: DiscoveryAction)
    requires
        1 <= attempt <= DISCOVERY_RETRY_ATTEMPTS,
    ensures
        r == discovery_decision(attempt as int, outcome),
{
    match outcome {
        AttemptOutcome::Found => DiscoveryAction::UseFound,
        _ => if attempt < DISCOVERY_RETRY_ATTEMPTS {
            DiscoveryAction::RetryAfterDelay
        } else {
            DiscoveryAction::GiveUpAfterDelay
        },
    }
}

/// Whether a listed peripheral is the wanted device: it answered with its
/// properties and its identifier is the device's.
pub fn is_wanted_peripheral(has_properties: bool, peripheral_id: &str, device_id: &str) -> (r:
    bool)
    ensures
        r == (has_properties && peripheral_id@ == device_id@),
{
    has_properties && String::from_str(peripheral_id) == String::from_str(device_id)
}

/// A search makes at most the allowed number of attempts: every failed
/// attempt before the last is followed by another, the last failed one ends
/// the search, whatever made it fail, and a found device ends it at once.
pub proof fn lemma_discovery_is_bounded(attempt: int, outcome: AttemptOutcome)
    requires
        1 <= attempt <= DISCOVERY_RETRY_ATTEMPTS,
    ensures
        outcome is Found ==> discovery_decision(attempt, outcome) == DiscoveryAction::UseFound,
        !(outcome is Found) && attempt < DISCOVERY_RETRY_ATTEMPTS ==> discovery_decision(
            attempt,
            outcome,
        ) == DiscoveryAction::RetryAfterDelay,
        !(outcome is Found) && attempt == DISCOVERY_RETRY_ATTEMPTS ==> discovery_decision(
            attempt,
            outcome,
        ) == DiscoveryAction::GiveUpAfterDelay,
        discovery_decision(attempt, outcome) != DiscoveryAction::RetryAfterDelay || attempt + 1
            <= DISCOVERY_RETRY_ATTEMPTS,
{
}

} // verus!
