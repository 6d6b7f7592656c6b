use face_detect_rust::base64::{decode, encode, DecodeError};
use face_detect_rust::error::ApiError;
use face_detect_rust::transport::{decode_base64_image, jpeg_data_uri, strip_data_uri_prefix};

#[test]
fn encode_man_gives_twfu() {
    assert_eq!(encode(&[0x4D, 0x61, 0x6E]), "TWFu");
}

#[test]
fn decode_twfu_gives_man() {
    assert_eq!(decode("TWFu").unwrap(), vec![0x4D, 0x61, 0x6E]);
}

#[test]
fn encode_empty_is_empty() {
    assert_eq!(encode(&[]), "");
    assert_eq!(decode("").unwrap(), Vec::<u8>::new());
}

#[test]
fn encode_pads_partial_groups() {
    assert_eq!(encode(b"Ma"), "TWE=");
    assert_eq!(encode(b"M"), "TQ==");
    assert_eq!(encode(b"hello world"), "aGVsbG8gd29ybGQ=");
    assert_eq!(encode(&[0xFF, 0xFE, 0xFD]), "//79");
}

#[test]
fn decode_rejects_invalid_character() {
    assert_eq!(decode("abc!"), Err(DecodeError::InvalidCharacter('!')));
    assert!(matches!(decode("ab-c"), Err(DecodeError::InvalidCharacter('-'))));
}

#[test]
fn decode_ignores_whitespace() {
    assert_eq!(decode("YW J j"), decode("YWJj"));
    assert_eq!(decode("YW\nJj\r").unwrap(), b"abc".to_vec());
}

#[test]
fn decode_stops_at_first_padding() {
    assert_eq!(decode("TWE=").unwrap(), b"Ma".to_vec());
    assert_eq!(decode("TWFu=!!!!").unwrap(), b"Man".to_vec());
    assert_eq!(decode("TQ==").unwrap(), b"M".to_vec());
}

#[test]
fn round_trip_on_many_buffers() {
    for n in 0..40usize {
        let data: Vec<u8> = (0..n).map(|i| (i * 37 + 11) as u8).collect();
        let text = encode(&data);
        if n > 0 {
            assert_eq!(text.len() % 4, 0);
        }
        assert_eq!(decode(&text).unwrap(), data);
    }
}

#[test]
fn data_uri_prefixes_are_stripped() {
    assert_eq!(strip_data_uri_prefix("data:image/jpeg;base64,TWFu"), "TWFu");
    assert_eq!(strip_data_uri_prefix("data:image/png;base64,TWFu"), "TWFu");
    assert_eq!(strip_data_uri_prefix("TWFu"), "TWFu");
    assert_eq!(decode_base64_image("data:image/png;base64,TWFu").unwrap(), b"Man".to_vec());
    assert_eq!(decode_base64_image("TWFu").unwrap(), b"Man".to_vec());
}

#[test]
fn invalid_data_uri_is_an_error() {
    assert!(matches!(
        decode_base64_image("invalid-base64-data"),
        Err(ApiError::Base64Error(DecodeError::InvalidCharacter('-')))
    ));
    assert!(matches!(
        decode_base64_image("data:image/jpeg;base64,TW?u"),
        Err(ApiError::Base64Error(DecodeError::InvalidCharacter('?')))
    ));
}

#[test]
fn jpeg_data_uri_has_prefix_and_payload() {
    assert_eq!(jpeg_data_uri(&[0x4D, 0x61, 0x6E]), "data:image/jpeg;base64,TWFu");
}
