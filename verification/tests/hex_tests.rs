use rdp_spray::hex::bytes_to_hex;
use rdp_spray::hex::hex_to_bytes;

#[test]
fn decodes_even_hex_pairs() {
    assert_eq!(hex_to_bytes("a1b2"), Some(vec![0xa1, 0xb2]));
    assert_eq!(hex_to_bytes("00ff"), Some(vec![0x00, 0xff]));
    assert_eq!(hex_to_bytes("09af"), Some(vec![0x09, 0xaf]));
}

#[test]
fn decodes_uppercase_hex() {
    assert_eq!(hex_to_bytes("A1B2"), Some(vec![0xa1, 0xb2]));
    assert_eq!(hex_to_bytes("DeAdBeEf"), Some(vec![0xde, 0xad, 0xbe, 0xef]));
}

#[test]
fn decodes_empty_string_to_no_bytes() {
    assert_eq!(hex_to_bytes(""), Some(vec![]));
}

#[test]
fn rejects_odd_length() {
    assert_eq!(hex_to_bytes("a"), None);
    assert_eq!(hex_to_bytes("abc"), None);
    assert_eq!(hex_to_bytes("00fff"), None);
}

#[test]
fn rejects_non_hex_characters() {
    assert_eq!(hex_to_bytes("g1"), None);
    assert_eq!(hex_to_bytes("1g"), None);
    assert_eq!(hex_to_bytes("+1"), None);
    assert_eq!(hex_to_bytes("a1 2"), None);
    assert_eq!(hex_to_bytes("ab\u{212a}c"), None);
}

#[test]
fn encodes_bytes_as_lowercase_hex() {
    assert_eq!(bytes_to_hex(&[0x00, 0xff]), "00ff");
    assert_eq!(bytes_to_hex(&[]), "");
    assert_eq!(bytes_to_hex(&[0xde, 0xad, 0xbe, 0xef]), "deadbeef");
}

#[test]
fn round_trip_lowercases_mixed_case_hex() {
    let decoded = hex_to_bytes("A1b2C3").unwrap();
    assert_eq!(bytes_to_hex(&decoded), "a1b2c3");
    let decoded = hex_to_bytes("FFFF").unwrap();
    assert_eq!(bytes_to_hex(&decoded), "ffff");
}
