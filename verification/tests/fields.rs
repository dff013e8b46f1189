use ayphr::fields::{append_field, read_field, read_string_field, FIELD_TOO_LONG};

#[test]
fn append_field_writes_length_then_bytes() {
    let mut buf = vec![9u8];
    assert_eq!(append_field(&mut buf, "abc"), Ok(()));
    assert_eq!(buf, vec![9, 3, b'a', b'b', b'c']);
}

#[test]
fn append_field_rejects_long_values() {
    let mut buf = vec![1u8];
    let long = "x".repeat(256);
    assert_eq!(append_field(&mut buf, &long), Err(FIELD_TOO_LONG));
    assert_eq!(buf, vec![1]);
    let exact = "y".repeat(255);
    assert_eq!(append_field(&mut buf, &exact), Ok(()));
    assert_eq!(buf.len(), 257);
    assert_eq!(buf[1], 255);
}

#[test]
fn read_field_roundtrip() {
    let mut buf = vec![0x03u8];
    append_field(&mut buf, "héllo").unwrap();
    append_field(&mut buf, "").unwrap();
    let mut cursor = 1usize;
    assert_eq!(read_field(&buf, &mut cursor), Some("héllo".to_string()));
    assert_eq!(cursor, 1 + 1 + "héllo".len());
    assert_eq!(read_field(&buf, &mut cursor), Some(String::new()));
    assert_eq!(cursor, buf.len());
    assert_eq!(read_field(&buf, &mut cursor), None);
    assert_eq!(cursor, buf.len());
}

#[test]
fn read_field_truncated_advances_past_length() {
    let data = [0u8, 5, b'a', b'b'];
    let mut cursor = 1usize;
    assert_eq!(read_field(&data, &mut cursor), None);
    assert_eq!(cursor, 2);
}

#[test]
fn read_field_invalid_utf8() {
    let data = [0u8, 2, 0xff, 0xfe];
    let mut cursor = 1usize;
    assert_eq!(read_field(&data, &mut cursor), None);
    assert_eq!(cursor, 2);
}

#[test]
fn read_string_field_errors() {
    let data = [0u8, 5, b'a'];
    let mut cursor = 3usize;
    assert_eq!(
        read_string_field(&data, &mut cursor),
        Err("payload truncated at string field".to_string())
    );
    let mut cursor = 1usize;
    assert_eq!(
        read_string_field(&data, &mut cursor),
        Err("payload truncated inside string field".to_string())
    );
    let bad = [2u8, 0xc3, 0x28];
    let mut cursor = 0usize;
    let err = read_string_field(&bad, &mut cursor).unwrap_err();
    let reason = String::from_utf8(vec![0xc3, 0x28]).unwrap_err().to_string();
    assert_eq!(err, format!("invalid UTF-8: {}", reason));
    let good = [2u8, b'o', b'k'];
    let mut cursor = 0usize;
    assert_eq!(read_string_field(&good, &mut cursor), Ok("ok".to_string()));
    assert_eq!(cursor, 3);
}
