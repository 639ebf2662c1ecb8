use aliyun_sdk::encode::{percent_decode, percent_encode};

#[test]
fn test_unreserved_passes_through() {
    let input = b"ABCXYZabcxyz0123456789-_.~";
    assert_eq!(percent_encode(input), input.to_vec());
}

#[test]
fn test_tilde_stays_literal() {
    assert_eq!(percent_encode(b"a~b"), b"a~b".to_vec());
}

#[test]
fn test_space_and_star_escaped() {
    assert_eq!(percent_encode(b"a b"), b"a%20b".to_vec());
    assert_eq!(percent_encode(b"a*b"), b"a%2Ab".to_vec());
}

#[test]
fn test_reserved_bytes_escaped_uppercase() {
    assert_eq!(percent_encode(b"/"), b"%2F".to_vec());
    assert_eq!(percent_encode(b"="), b"%3D".to_vec());
    assert_eq!(percent_encode(b"&"), b"%26".to_vec());
    assert_eq!(percent_encode(b"+"), b"%2B".to_vec());
    assert_eq!(percent_encode(b":"), b"%3A".to_vec());
}

#[test]
fn test_multibyte_escaped_per_byte() {
    // U+00E9 is 0xC3 0xA9 in UTF-8: one escape per byte.
    let input = "é".as_bytes();
    assert_eq!(percent_encode(input), b"%C3%A9".to_vec());
}

#[test]
fn test_empty_input() {
    assert_eq!(percent_encode(b""), Vec::<u8>::new());
    assert_eq!(percent_decode(b""), Some(Vec::new()));
}

#[test]
fn test_decode_is_left_inverse_of_encode() {
    let samples: [&[u8]; 6] = [
        b"",
        b"plain",
        b"a b*c~d",
        b"2015-01-09T12:00:00Z",
        "caf\u{e9} au lait".as_bytes(),
        &[0x00, 0x25, 0xFF, 0x7E],
    ];
    for s in samples {
        let encoded = percent_encode(s);
        assert_eq!(percent_decode(&encoded), Some(s.to_vec()));
    }
}

#[test]
fn test_decode_plain_bytes() {
    assert_eq!(percent_decode(b"abc"), Some(b"abc".to_vec()));
    assert_eq!(percent_decode(b"%41"), Some(b"A".to_vec()));
}

#[test]
fn test_decode_rejects_malformed_escape() {
    assert_eq!(percent_decode(b"%"), None);
    assert_eq!(percent_decode(b"%2"), None);
    assert_eq!(percent_decode(b"%ZZ"), None);
    // The encoder writes uppercase hex only, and decoding mirrors it.
    assert_eq!(percent_decode(b"%2a"), None);
}
