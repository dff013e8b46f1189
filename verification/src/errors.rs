//! Error codes reported by the device.
use vstd::prelude::*;

verus! {

/// An error code reported by the device, carried as one byte.
#[derive(Debug, Clone, Copy, PartialEq, Eq, Structural)]
pub enum DeviceError {
    InvalidCommand,
    AuthenticationRequired,
    InvalidPayload,
    NvsWriteFailed,
    SensorUnavailable,
    Unknown,
}

/// The byte that carries each error code.
pub open spec fn error_code(e: DeviceError) -> u8 {
    match e {
        DeviceError::InvalidCommand => 0x01,
        DeviceError::AuthenticationRequired => 0x02,
        DeviceError::InvalidPayload => 0x03,
        DeviceError::NvsWriteFailed => 0x04,
        DeviceError::SensorUnavailable => 0x05,
        DeviceError::Unknown => 0xFF,
    }
}

/// The error code a byte stands for; bytes that stand for no code are
/// `Unknown`.
pub open spec fn error_of_code(b: u8) -> DeviceError {
    if b == 0x01 {
        DeviceError::InvalidCommand
    } else if b == 0x02 {
        DeviceError::AuthenticationRequired
    } else if b == 0x03 {
        DeviceError::InvalidPayload
    } else if b == 0x04 {
        DeviceError::NvsWriteFailed
    } else if b == 0x05 {
        DeviceError::SensorUnavailable
    } else {
        DeviceError::Unknown
    }
}

impl DeviceError {
    pub fn from_u8(val: u8) -> (r: Self)
        ensures
            r == error_of_code(val),
    {
        if val == 0x01 {
            DeviceError::InvalidCommand
        } else if val == 0x02 {
            DeviceError::AuthenticationRequired
        } else if val == 0x03 {
            DeviceError::InvalidPayload
        } else if val == 0x04 {
            DeviceError::NvsWriteFailed
        } else if val == 0x05 {
            DeviceError::SensorUnavailable
        } else {
            DeviceError::Unknown
        }
    }

    /// The byte that carries this error code.
    pub fn code(self) -> (r: u8)
        ensures
            r == error_code(self),
    {
        match self {
            DeviceError::InvalidCommand => 0x01,
            DeviceError::AuthenticationRequired => 0x02,
            DeviceError::InvalidPayload => 0x03,
            DeviceError::NvsWriteFailed => 0x04,
            DeviceError::SensorUnavailable => 0x05,
            DeviceError::Unknown => 0xFF,
        }
    }
}

/// Every error code reads back from its byte.
pub proof fn lemma_error_code_roundtrip(e: DeviceError)
    ensures
        error_of_code(error_code(e)) == e,
{
}

/// A byte that stands for a code is the byte of that code.
pub proof fn lemma_error_byte_roundtrip(b: u8)
    requires
        error_of_code(b) != DeviceError::Unknown,
    ensures
        error_code(error_of_code(b)) == b,
{
}

} // verus!
