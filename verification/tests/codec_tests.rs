use raft_driver::codec::decode_entry;
use raft_driver::codec::encode_entry;

#[test]
fn encoding_concrete_pair() {
    assert_eq!(encode_entry(7, "value7"), "put 7 value7");
}

#[test]
fn round_trip_concrete_pair() {
    let wire = encode_entry(7, "value7");
    let (k, v) = decode_entry(wire.as_str()).expect("well-formed");
    assert_eq!(k, 7);
    assert_eq!(v, "value7");
}

#[test]
fn round_trip_value_with_spaces() {
    let wire = encode_entry(65535, "a b  c");
    assert_eq!(wire, "put 65535 a b  c");
    let (k, v) = decode_entry(wire.as_str()).expect("well-formed");
    assert_eq!(k, 65535);
    assert_eq!(v, "a b  c");
}

#[test]
fn round_trip_key_zero() {
    let wire = encode_entry(0, "x");
    assert_eq!(wire, "put 0 x");
    assert_eq!(decode_entry("put 0 x"), Some((0, "x".to_string())));
}

#[test]
fn decode_rejects_malformed_payloads() {
    assert_eq!(decode_entry(""), None);
    assert_eq!(decode_entry("put"), None);
    assert_eq!(decode_entry("put "), None);
    assert_eq!(decode_entry("get 1 x"), None);
    assert_eq!(decode_entry("put  x"), None);
    assert_eq!(decode_entry("put 12"), None);
    assert_eq!(decode_entry("put 12 "), None);
    assert_eq!(decode_entry("put x 1"), None);
    assert_eq!(decode_entry("xput 1 y"), None);
}

#[test]
fn decode_rejects_key_out_of_range() {
    assert_eq!(decode_entry("put 65536 x"), None);
    assert_eq!(decode_entry("put 99999999999999999999 x"), None);
    assert_eq!(decode_entry("put 65535 x"), Some((65535, "x".to_string())));
}

#[test]
fn decode_rejects_newline_in_value() {
    assert_eq!(decode_entry("put 1 a\nb"), None);
}

#[test]
fn decode_accepts_leading_zero_digits() {
    assert_eq!(decode_entry("put 007 x"), Some((7, "x".to_string())));
}

#[test]
fn decode_keeps_value_verbatim() {
    assert_eq!(decode_entry("put 12 34 x"), Some((12, "34 x".to_string())));
}
