use clienttoken::hex::{decode, encode};
use clienttoken::text::to_ascii_upper;

#[test]
fn decode_pairs_of_digits() {
    assert_eq!(decode("00ff10"), Some(vec![0x00, 0xff, 0x10]));
    assert_eq!(decode("DeadBEEF"), Some(vec![0xde, 0xad, 0xbe, 0xef]));
}

#[test]
fn decode_empty_text() {
    assert_eq!(decode(""), Some(vec![]));
}

#[test]
fn decode_lone_last_digit() {
    assert_eq!(decode("abc"), Some(vec![0xab, 0x0c]));
}

#[test]
fn decode_rejects_non_hex() {
    assert_eq!(decode("zz"), None);
    assert_eq!(decode("0g"), None);
    assert_eq!(decode("+5"), None);
    assert_eq!(decode("é0"), None);
}

#[test]
fn encode_is_lower_case() {
    assert_eq!(encode(&[0xde, 0xad, 0x00, 0x0f]), "dead000f");
    assert_eq!(encode(&[]), "");
}

#[test]
fn upper_case_keeps_digits_and_other_characters() {
    assert_eq!(to_ascii_upper("ab0c"), "AB0C");
    assert_eq!(to_ascii_upper("x-Yz é"), "X-YZ é");
}

#[test]
fn hex_case_round_trip() {
    for s in ["DeadBEEF", "00", "", "aBcDeF0123456789"] {
        let bytes = decode(s).unwrap();
        assert_eq!(to_ascii_upper(&encode(&bytes)), to_ascii_upper(s));
    }
}
