//! Configuration and provisioning protocol of the Geo device: the wire
//! format shared by the firmware and its companion application, the
//! firmware's request processor, and the companion's parsers and state.
use vstd::prelude::*;

pub mod ble_ids;
pub mod ble_link;
pub mod companion;
pub mod device;
pub mod errors;
pub mod fields;
pub mod framing;
pub mod keyed;
pub mod models;
pub mod name_order;
pub mod ota;
pub mod processor;
pub mod requests;
pub mod serial_state;
pub mod upload;
pub mod wifi;
pub mod wire;

verus! {

} // verus!
