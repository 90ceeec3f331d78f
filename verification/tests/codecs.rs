use avanzo::codec::base64_decode;
use avanzo::codec::base64_encode;
use avanzo::codec::decode_image;
use avanzo::codec::encode_image;
use avanzo::codec::parse_count;
use avanzo::codec::to_decimal_string;

#[test]
fn base64_encodes_known_values() {
    assert_eq!(base64_encode(&b"".to_vec()), b"".to_vec());
    assert_eq!(base64_encode(&b"f".to_vec()), b"Zg==".to_vec());
    assert_eq!(base64_encode(&b"fo".to_vec()), b"Zm8=".to_vec());
    assert_eq!(base64_encode(&b"foo".to_vec()), b"Zm9v".to_vec());
    assert_eq!(base64_encode(&b"foobar".to_vec()), b"Zm9vYmFy".to_vec());
    assert_eq!(base64_encode(&vec![251u8, 239, 190]), b"++++".to_vec());
    assert_eq!(base64_encode(&vec![255u8, 255, 255]), b"////".to_vec());
}

#[test]
fn base64_decodes_known_values() {
    assert_eq!(base64_decode(&b"".to_vec()), Some(b"".to_vec()));
    assert_eq!(base64_decode(&b"Zg==".to_vec()), Some(b"f".to_vec()));
    assert_eq!(base64_decode(&b"Zm8=".to_vec()), Some(b"fo".to_vec()));
    assert_eq!(base64_decode(&b"Zm9v".to_vec()), Some(b"foo".to_vec()));
    assert_eq!(base64_decode(&b"Zm9vYmFy".to_vec()), Some(b"foobar".to_vec()));
}

#[test]
fn base64_rejects_malformed_spellings() {
    assert_eq!(base64_decode(&b"Zg=".to_vec()), None);
    assert_eq!(base64_decode(&b"Z".to_vec()), None);
    assert_eq!(base64_decode(&b"Zm9v!AAA".to_vec()), None);
    assert_eq!(base64_decode(&b"=m9v".to_vec()), None);
    assert_eq!(base64_decode(&b"Zm=v".to_vec()), None);
    assert_eq!(base64_decode(&b"====".to_vec()), None);
}

#[test]
fn base64_round_trips_every_short_buffer() {
    for len in 0..6usize {
        let mut bytes = Vec::new();
        for i in 0..len {
            bytes.push((i * 89 + 7) as u8);
        }
        let encoded = base64_encode(&bytes);
        assert_eq!(base64_decode(&encoded), Some(bytes));
    }
}

#[test]
fn image_helpers_speak_strings() {
    assert_eq!(encode_image(&b"hello".to_vec()), "aGVsbG8=");
    assert_eq!(decode_image("aGVsbG8="), Some(b"hello".to_vec()));
    assert_eq!(decode_image("not base64!"), None);
    assert_eq!(decode_image(""), Some(Vec::new()));
}

#[test]
fn decimal_rendering_matches_expected_values() {
    assert_eq!(to_decimal_string(0), "0");
    assert_eq!(to_decimal_string(7), "7");
    assert_eq!(to_decimal_string(10), "10");
    assert_eq!(to_decimal_string(123456), "123456");
    assert_eq!(to_decimal_string(u32::MAX), "4294967295");
}

#[test]
fn counter_parsing_coerces_like_the_store() {
    assert_eq!(parse_count(&"0".to_string()), 0);
    assert_eq!(parse_count(&"42".to_string()), 42);
    assert_eq!(parse_count(&"007".to_string()), 7);
    assert_eq!(parse_count(&"2147483647".to_string()), 2147483647);
    assert_eq!(parse_count(&"2147483648".to_string()), 0);
    assert_eq!(parse_count(&"99999999999999999999".to_string()), 0);
    assert_eq!(parse_count(&"".to_string()), 0);
    assert_eq!(parse_count(&"12x".to_string()), 0);
    assert_eq!(parse_count(&"-3".to_string()), 0);
}
