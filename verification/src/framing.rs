//! Framing of requests and replies on the serial link: a two-byte
//! little-endian length, then the payload.
use vstd::prelude::*;
use vstd::string::*;
use crate::wire::{extend_bytes, le_bytes_u16, push_u16_le};

verus! {

/// Largest request the device accepts on the serial link.
pub const MAX_PAYLOAD_LEN: usize = 4096;

pub const PAYLOAD_TOO_LARGE: &'static str = "Payload too large for serial frame";

/// The frame that carries `payload`.
pub open spec fn frame_bytes(payload: Seq<u8>) -> Seq<u8> {
    le_bytes_u16(payload.len() as u16) + payload
}

/// Frames a payload; payloads longer than a two-byte length can announce
/// are refused.
pub fn encode_frame(payload: &[u8]) -> (r: Result<Vec<u8>, String>)
    ensures
        r is Ok <==> payload@.len() <= 0xFFFF,
        r matches Ok(frame) ==> frame@ == frame_bytes(payload@),
        r matches Err(m) ==> m@ == PAYLOAD_TOO_LARGE@,
{
    if payload.len() > 0xFFFF {
        return Err(String::from_str(PAYLOAD_TOO_LARGE));
    }
    let mut frame = Vec::new();
    push_u16_le(&mut frame, payload.len() as u16);
    extend_bytes(&mut frame, payload);
    Ok(frame)
}

/// The payload length announced by the two length bytes of a frame.
pub fn frame_payload_len(b0: u8, b1: u8) -> (r: usize)
    ensures
        r == b0 + 256 * b1,
{
    (b0 as usize) + 256 * (b1 as usize)
}

/// What the device does with an announced payload length.
#[derive(Debug, Clone, Copy, PartialEq, Eq, Structural)]
pub enum FrameLength {
    /// An empty frame: skip it.
    Empty,
    /// Longer than allowed: skip it.
    TooLarge,
    /// Read this many payload bytes.
    Accept(usize),
}

/// Sorts an announced payload length against the largest allowed.
pub fn classify_frame_length(len: usize, max_len: usize) -> (r: FrameLength)
    ensures
        r == (if len == 0 {
            FrameLength::Empty
        } else if len > max_len {
            FrameLength::TooLarge
        } else {
            FrameLength::Accept(len)
        }),
{
    if len == 0 {
        FrameLength::Empty
    } else if len > max_len {
        FrameLength::TooLarge
    } else {
        FrameLength::Accept(len)
    }
}

/// The length bytes of a frame announce the length of its payload.
pub proof fn lemma_frame_announces_length(payload: Seq<u8>)
    requires
        payload.len() <= 0xFFFF,
    ensures
        frame_bytes(payload).len() == 2 + payload.len(),
        frame_bytes(payload)[0] + 256 * frame_bytes(payload)[1] == payload.len(),
        frame_bytes(payload).subrange(2, frame_bytes(payload).len() as int) == payload,
{
    let f = frame_bytes(payload);
    let n = payload.len() as u16;
    assert(f.subrange(2, f.len() as int) =~= payload);
    assert(n as int == n % 256 + 256 * ((n / 256) % 256));
}

} // verus!
