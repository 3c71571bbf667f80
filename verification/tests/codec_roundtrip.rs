use client_server_events::codec::{
    decode_text_message, decode_u64_message, encode_text_message, encode_u64_message,
    text_codec_round_trip, u64_codec_round_trip,
};

#[test]
fn u64_round_trip_small_value() {
    assert_eq!(u64_codec_round_trip(42), Some(42));
    assert_eq!(u64_codec_round_trip(0), Some(0));
    assert_eq!(u64_codec_round_trip(u64::MAX), Some(u64::MAX));
}

#[test]
fn u64_wire_format_is_the_codec_varint() {
    // One byte for small values, a marker plus little-endian bytes above 250.
    assert_eq!(encode_u64_message(42), vec![42]);
    assert_eq!(encode_u64_message(300), vec![251, 44, 1]);
}

#[test]
fn u64_decode_inverts_encode() {
    let payload = encode_u64_message(123_456_789);
    assert_eq!(decode_u64_message(&payload), Some(123_456_789));
}

#[test]
fn u64_decode_rejects_empty_payload() {
    assert_eq!(decode_u64_message(&[]), None);
}

#[test]
fn text_round_trip_keeps_characters() {
    assert_eq!(text_codec_round_trip("hello").as_deref(), Some("hello"));
    assert_eq!(text_codec_round_trip("").as_deref(), Some(""));
    assert_eq!(
        text_codec_round_trip("héllo wörld").as_deref(),
        Some("héllo wörld")
    );
}

#[test]
fn text_wire_format_is_length_prefixed() {
    // The payload is not the raw bytes: a length prefix comes first.
    assert_eq!(encode_text_message("hi"), vec![2, b'h', b'i']);
    let decoded = decode_text_message(&[2, b'h', b'i']);
    assert_eq!(decoded.as_deref(), Some("hi"));
}

#[test]
fn text_decode_rejects_truncated_payload() {
    // Length prefix promises more bytes than the payload holds.
    assert_eq!(decode_text_message(&[5, b'h', b'i']), None);
}

#[test]
fn string_to_key_truncates_and_pads() {
    let key = client_server_events::string_to_key("secret");
    assert_eq!(&key[..6], b"secret");
    assert_eq!(&key[6..], &[0u8; 26]);

    let long = "0123456789012345678901234567890123456789";
    let key = client_server_events::string_to_key(long);
    assert_eq!(&key[..], &long.as_bytes()[..32]);
}
