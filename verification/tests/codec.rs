//! The payload storage codec and the decimal text helpers.

use node_events::codec::{encode_payload, parse_payload_bytes};
use node_events::events::{PayloadEntry, PayloadValue};
use node_events::text::{i64_to_dec, u64_to_dec};

fn entry(key: &str, value: PayloadValue) -> PayloadEntry {
    PayloadEntry { key: key.to_owned(), value }
}

#[test]
fn payload_round_trips_through_the_codec() {
    let payload = vec![
        entry("active", PayloadValue::Bool(true)),
        entry("closed", PayloadValue::Bool(false)),
        entry("value_msat", PayloadValue::Int(i64::MIN)),
        entry("fee", PayloadValue::Int(-1)),
        entry("chan_id", PayloadValue::UInt(u64::MAX)),
        entry("memo", PayloadValue::Text(String::new())),
        entry("note", PayloadValue::Text("grüße / 手紙 \"quoted\"".to_owned())),
        entry("", PayloadValue::UInt(0)),
    ];
    let bytes = encode_payload(&payload);
    let parsed = parse_payload_bytes(&bytes).expect("own encoding parses");
    assert_eq!(parsed, payload);
}

#[test]
fn empty_payload_round_trips() {
    let payload: Vec<PayloadEntry> = Vec::new();
    let bytes = encode_payload(&payload);
    assert!(bytes.is_empty());
    let parsed = parse_payload_bytes(&bytes).expect("empty parses");
    assert!(parsed.is_empty());
}

#[test]
fn garbage_bytes_fit_no_encoding() {
    assert!(parse_payload_bytes(&vec![1u8, 2, 3]).is_none());
    // A huge length prefix with nothing behind it.
    assert!(parse_payload_bytes(&vec![0xffu8; 9]).is_none());
    // A valid key but a truncated value.
    let payload = vec![entry("k", PayloadValue::UInt(9))];
    let mut bytes = encode_payload(&payload);
    bytes.pop();
    assert!(parse_payload_bytes(&bytes).is_none());
}

#[test]
fn unsigned_decimal_text() {
    assert_eq!(u64_to_dec(0), "0");
    assert_eq!(u64_to_dec(7), "7");
    assert_eq!(u64_to_dec(10), "10");
    assert_eq!(u64_to_dec(50000), "50000");
    assert_eq!(u64_to_dec(u64::MAX), "18446744073709551615");
}

#[test]
fn signed_decimal_text() {
    assert_eq!(i64_to_dec(0), "0");
    assert_eq!(i64_to_dec(42), "42");
    assert_eq!(i64_to_dec(-42), "-42");
    assert_eq!(i64_to_dec(i64::MAX), "9223372036854775807");
    assert_eq!(i64_to_dec(i64::MIN), "-9223372036854775808");
}
