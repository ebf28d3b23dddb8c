use matchroom::codec::build_relay_payload;
use matchroom::codec::decode_id;
use matchroom::codec::decode_ser_id;
use matchroom::codec::encode_id;
use matchroom::codec::encode_ser_id;
use matchroom::codec::id_from_be_bytes;
use matchroom::codec::id_to_be_bytes;
use matchroom::codec::u64_to_dec;
use matchroom::protocol::SerId;

#[test]
fn encode_zero_is_full_width_padded() {
    assert_eq!(encode_id(0), "AAAAAAAAAAA=");
}

#[test]
fn encode_one_exact_value() {
    // eight big-endian bytes 00..01
    assert_eq!(encode_id(1), "AAAAAAAAAAE=");
}

#[test]
fn encode_max_exact_value() {
    assert_eq!(encode_id(u64::MAX), "//////////8=");
}

#[test]
fn encode_is_always_twelve_chars() {
    for x in [0u64, 1, 7, 255, 256, 0xDEAD_BEEF, u64::MAX] {
        assert_eq!(encode_id(x).len(), 12);
    }
}

#[test]
fn decode_round_trips_encode() {
    for x in [0u64, 1, 2, 42, 123_456_789, 0xDEAD_BEEF_u64, u64::MAX - 1, u64::MAX] {
        assert_eq!(decode_id(&encode_id(x)), Some(x));
    }
}

#[test]
fn ser_id_round_trips() {
    for x in [0u64, 99, u64::MAX] {
        assert_eq!(decode_ser_id(&encode_ser_id(SerId(x))), Some(SerId(x)));
    }
}

#[test]
fn decode_rejects_wrong_decoded_length() {
    // four base64 chars decode to three bytes, not eight
    assert_eq!(decode_id("AAAA"), None);
    // sixteen chars decode to twelve bytes
    assert_eq!(decode_id("AAAAAAAAAAAAAAAA"), None);
}

#[test]
fn decode_rejects_invalid_base64() {
    assert_eq!(decode_id("not base64!!"), None);
    assert_eq!(decode_id(""), None);
}

#[test]
fn be_bytes_round_trip() {
    for x in [0u64, 1, 0x0102_0304_0506_0708, u64::MAX] {
        let b = id_to_be_bytes(x);
        assert_eq!(b.len(), 8);
        assert_eq!(id_from_be_bytes(&b), x);
    }
    assert_eq!(id_to_be_bytes(0x0102_0304_0506_0708), vec![1, 2, 3, 4, 5, 6, 7, 8]);
}

#[test]
fn decimal_strings() {
    assert_eq!(u64_to_dec(0), "0");
    assert_eq!(u64_to_dec(7), "7");
    assert_eq!(u64_to_dec(10), "10");
    assert_eq!(u64_to_dec(12345), "12345");
    assert_eq!(u64_to_dec(u64::MAX), "18446744073709551615");
}

#[test]
fn relay_payload_injects_sender() {
    let raw = build_relay_payload(5, "{\"x\":1}").unwrap();
    let expected = format!("{{\"sender\":\"{}\",\"x\":1}}", encode_id(5));
    assert_eq!(raw, expected);
}

#[test]
fn relay_payload_keeps_rest_of_object() {
    let raw = build_relay_payload(0, "{\"a\":[1,2],\"b\":\"c\"}").unwrap();
    assert_eq!(raw, "{\"sender\":\"AAAAAAAAAAA=\",\"a\":[1,2],\"b\":\"c\"}");
}

#[test]
fn relay_payload_rejects_empty_and_braceless() {
    assert!(build_relay_payload(1, "").is_none());
    assert!(build_relay_payload(1, "[1,2]").is_none());
    assert!(build_relay_payload(1, "x{").is_none());
}
