//! Length-prefixed UTF-8 string fields: one length byte followed by the
//! UTF-8 bytes of the string.
use vstd::prelude::*;
use vstd::string::*;
use vstd::utf8::*;
use crate::wire::extend_bytes;

verus! {

/// Message of the error returned when a field does not fit its length byte.
pub const FIELD_TOO_LONG: &'static str = "Field length exceeds max payload limit of 255 bytes";

/// The UTF-8 bytes of a string.
pub open spec fn utf8(s: Seq<char>) -> Seq<u8> {
    encode_utf8(s)
}

/// The encoding of a string as a length-prefixed field.
pub open spec fn field_encoding(s: Seq<char>) -> Seq<u8> {
    seq![utf8(s).len() as u8] + utf8(s)
}

/// The view of an optional string.
pub open spec fn opt_view(o: Option<String>) -> Option<Seq<char>> {
    match o {
        Some(s) => Some(s@),
        None => None,
    }
}

/// Reading a field at `cursor`: the string, if one is there, and the
/// position of the cursor afterwards.
///
/// A cursor at or past the end yields nothing and stays put. Otherwise the
/// length byte is consumed; when the announced bytes are missing or are not
/// valid UTF-8, nothing is yielded and the cursor stays just after the
/// length byte.
pub open spec fn field_at(data: Seq<u8>, cursor: int) -> (Option<Seq<char>>, int) {
    if cursor < 0 || cursor >= data.len() {
        (None, cursor)
    } else {
        let n = data[cursor] as int;
        if cursor + 1 + n > data.len() {
            (None, cursor + 1)
        } else {
            let raw = data.subrange(cursor + 1, cursor + 1 + n);
            if valid_utf8(raw) {
                (Some(decode_utf8(raw)), cursor + 1 + n)
            } else {
                (None, cursor + 1)
            }
        }
    }
}

/// The display text of the error `String::from_utf8` gives for bytes that
/// are not valid UTF-8.
pub uninterp spec fn utf8_error_text(bytes: Seq<u8>) -> Seq<char>;

/// Decodes UTF-8 bytes into a `String` with `String::from_utf8` (the bytes
/// are copied first); a failure hands back the error's display text.
///
/// Trusted: std documents that `String::from_utf8` succeeds exactly on valid
/// UTF-8 and then holds the decoded characters. The error's text depends on
/// the bytes alone and is named `utf8_error_text`.
#[verifier::external_body]
pub(crate) fn utf8_to_string(bytes: &[u8]) -> (r: Result<String, String>)
    ensures
        r is Ok <==> valid_utf8(bytes@),
        r matches Ok(s) ==> s@ == decode_utf8(bytes@),
        r matches Err(e) ==> e@ == utf8_error_text(bytes@),
{
    match String::from_utf8(bytes.to_vec()) {
        Ok(text) => Ok(text),
        Err(error) => Err(error.to_string()),
    }
}

/// Appends a length-prefixed string field to a raw byte buffer.
/// Payload format: [1-byte length] [UTF-8 string bytes].
pub fn append_field(buf: &mut Vec<u8>, val: &str) -> (r: Result<(), &'static str>)
    ensures
        r is Ok <==> utf8(val@).len() <= 255,
        r is Ok ==> final(buf)@ == old(buf)@ + field_encoding(val@),
        r is Err ==> final(buf)@ == old(buf)@ && r == Err::<(), &'static str>(FIELD_TOO_LONG),
{
    let bytes = val.as_bytes();
    if bytes.len() > 255 {
        return Err(FIELD_TOO_LONG);
    }
    let ghost before = buf@;
    buf.push(bytes.len() as u8);
    extend_bytes(buf, bytes);
    assert(buf@ =~= before + field_encoding(val@));
    Ok(())
}

/// Reads a length-prefixed UTF-8 field at `cursor`, advancing the cursor
/// as `field_at` says.
pub fn read_field(data: &[u8], cursor: &mut usize) -> (r: Option<String>)
    ensures
        opt_view(r) == field_at(data@, *old(cursor) as int).0,
        *final(cursor) == field_at(data@, *old(cursor) as int).1,
{
    if *cursor >= data.len() {
        return None;
    }
    let len = data[*cursor] as usize;
    *cursor = *cursor + 1;
    if len > data.len() - *cursor {
        return None;
    }
    let start = *cursor;
    let raw = &data[start..start + len];
    match utf8_to_string(raw) {
        Ok(val) => {
            *cursor = start + len;
            Some(val)
        },
        Err(_) => None,
    }
}

/// Message prefix of the error for a field that is not valid UTF-8.
pub const INVALID_UTF8_PREFIX: &'static str = "invalid UTF-8: ";
/// Message of the error for a cursor at or past the end of the payload.
pub const TRUNCATED_AT_FIELD: &'static str = "payload truncated at string field";
/// Message of the error for a field whose bytes run past the payload.
pub const TRUNCATED_INSIDE_FIELD: &'static str = "payload truncated inside string field";

/// The message of a field that cannot be read at `c`: the cursor is at or
/// past the end of the payload, the field's bytes run past it, or they are
/// not valid UTF-8.
pub open spec fn field_error_message(p: Seq<u8>, c: int) -> Seq<char> {
    if c >= p.len() {
        TRUNCATED_AT_FIELD@
    } else if c + 1 + p[c] > p.len() {
        TRUNCATED_INSIDE_FIELD@
    } else {
        INVALID_UTF8_PREFIX@ + utf8_error_text(p.subrange(c + 1, c + 1 + p[c]))
    }
}

/// Reads a length-prefixed UTF-8 field at `cursor` as the companion does:
/// like `read_field`, but each failure carries its message.
pub fn read_string_field(payload: &[u8], cursor: &mut usize) -> (r: Result<String, String>)
    ensures
        *final(cursor) == field_at(payload@, *old(cursor) as int).1,
        r is Ok <==> field_at(payload@, *old(cursor) as int).0 is Some,
        r matches Ok(s) ==> Some(s@) == field_at(payload@, *old(cursor) as int).0,
        r matches Err(m) ==> m@ == field_error_message(payload@, *old(cursor) as int),
{
    if *cursor >= payload.len() {
        return Err(String::from_str(TRUNCATED_AT_FIELD));
    }
    let len = payload[*cursor] as usize;
    *cursor = *cursor + 1;
    if len > payload.len() - *cursor {
        return Err(String::from_str(TRUNCATED_INSIDE_FIELD));
    }
    let start = *cursor;
    let raw = &payload[start..start + len];
    match utf8_to_string(raw) {
        Ok(val) => {
            *cursor = start + len;
            Ok(val)
        },
        Err(error) => {
            Err(String::from_str(INVALID_UTF8_PREFIX).concat(error.as_str()))
        },
    }
}

/// Reading the field that `append_field` wrote gives back the string and
/// leaves the cursor just past the field.
pub proof fn lemma_field_roundtrip(prefix: Seq<u8>, s: Seq<char>, suffix: Seq<u8>)
    requires
        utf8(s).len() <= 255,
    ensures
        field_at(prefix + field_encoding(s) + suffix, prefix.len() as int) == (
            Some(s),
            (prefix.len() + 1 + utf8(s).len()) as int,
        ),
{
    let data = prefix + field_encoding(s) + suffix;
    let c = prefix.len() as int;
    let n = utf8(s).len() as int;
    assert(data[c] == n as u8);
    assert(data.subrange(c + 1, c + 1 + n) =~= utf8(s));
    encode_utf8_valid_utf8(s);
    encode_utf8_decode_utf8(s);
}

} // verus!
