use clienttoken::message::{ClientTokenRequest, ResponseType, TokenError};
use clienttoken::protocol::{advance, start, Action, Event, Phase};
use clienttoken::reader::decode_response;
use clienttoken::wire::encode_request;
use clienttoken::message::{ClientConfig, Screen};

const CHALLENGES: [u8; 29] = [
    0x08, 0x02, 0x1a, 0x19, 0x0a, 0x01, 0x53, 0x12, 0x0a, 0x08, 0x03, 0x1a, 0x06, 0x08, 0x0a,
    0x12, 0x02, 0x30, 0x30, 0x12, 0x08, 0x1a, 0x06, 0x08, 0x00, 0x12, 0x02, 0x66, 0x66,
];

const GRANTED: [u8; 37] = [
    0x08, 0x01, 0x12, 0x21, 0x0a, 0x01, 0x54, 0x10, 0x80, 0xea, 0x49, 0x18, 0xff, 0xff, 0xff,
    0xff, 0xff, 0xff, 0xff, 0xff, 0xff, 0x01, 0x22, 0x0d, 0x0a, 0x0b, b'e', b'x', b'a', b'm',
    b'p', b'l', b'e', b'.', b'c', b'o', b'm',
];

#[test]
fn decodes_challenges_response() {
    let r = decode_response(&CHALLENGES).unwrap();
    assert_eq!(r.response_type, ResponseType::Challenges);
    assert!(r.granted_token.is_none());
    let c = r.challenges.unwrap();
    assert_eq!(c.state, "S");
    assert_eq!(c.challenges.len(), 2);
    let h = c.challenges[0].hash_cash.as_ref().unwrap();
    assert_eq!(h.length, 10);
    assert_eq!(h.prefix, "00");
    let h2 = c.challenges[1].hash_cash.as_ref().unwrap();
    assert_eq!(h2.length, 0);
    assert_eq!(h2.prefix, "ff");
}

#[test]
fn decodes_granted_response() {
    let r = decode_response(&GRANTED).unwrap();
    assert_eq!(r.response_type, ResponseType::GrantedToken);
    assert!(r.challenges.is_none());
    let g = r.granted_token.unwrap();
    assert_eq!(g.token, "T");
    assert_eq!(g.expires_after_seconds, 1209600);
    assert_eq!(g.refresh_after_seconds, -1);
    assert_eq!(g.domains, vec!["example.com".to_string()]);
}

#[test]
fn empty_bytes_decode_to_unknown_response() {
    let r = decode_response(&[]).unwrap();
    assert_eq!(r.response_type, ResponseType::Unknown);
    assert!(r.granted_token.is_none());
    assert!(r.challenges.is_none());
}

#[test]
fn unknown_discriminant_is_decode_failure() {
    assert_eq!(decode_response(&[0x08, 0x05]).unwrap_err(), TokenError::DecodeFailure);
}

#[test]
fn truncated_bytes_are_decode_failure() {
    assert_eq!(decode_response(&CHALLENGES[..20]).unwrap_err(), TokenError::DecodeFailure);
    assert_eq!(decode_response(&[0x08]).unwrap_err(), TokenError::DecodeFailure);
}

#[test]
fn invalid_utf8_is_decode_failure() {
    let bytes = [0x08, 0x02, 0x1a, 0x03, 0x0a, 0x01, 0xff];
    assert_eq!(decode_response(&bytes).unwrap_err(), TokenError::DecodeFailure);
}

#[test]
fn malformed_keys_are_decode_failure() {
    // field number zero
    assert_eq!(decode_response(&[0x00, 0x01]).unwrap_err(), TokenError::DecodeFailure);
    // start-group wire type
    assert_eq!(decode_response(&[0x0b]).unwrap_err(), TokenError::DecodeFailure);
    // a varint longer than ten bytes
    let mut long = vec![0x08];
    long.extend([0x80; 10]);
    long.push(0x00);
    assert_eq!(decode_response(&long).unwrap_err(), TokenError::DecodeFailure);
}

#[test]
fn unknown_fields_are_skipped() {
    let bytes = [
        0x25, 1, 2, 3, 4, // field 4, fixed32
        0x29, 1, 2, 3, 4, 5, 6, 7, 8, // field 5, fixed64
        0x30, 0x96, 0x01, // field 6, varint
        0x3a, 0x02, 0x61, 0x62, // field 7, bytes
        0x08, 0x01,
    ];
    let r = decode_response(&bytes).unwrap();
    assert_eq!(r.response_type, ResponseType::GrantedToken);
}

#[test]
fn later_body_replaces_earlier() {
    let mut bytes = GRANTED.to_vec();
    bytes.extend_from_slice(&CHALLENGES);
    let r = decode_response(&bytes).unwrap();
    assert_eq!(r.response_type, ResponseType::Challenges);
    assert!(r.granted_token.is_none());
    assert_eq!(r.challenges.unwrap().state, "S");
}

fn config() -> ClientConfig {
    ClientConfig {
        client_id: "client".to_string(),
        client_version: "1.0".to_string(),
        device_id: "device".to_string(),
        android_version: "10".to_string(),
        api_version: 29,
        device_name: "Phone".to_string(),
        model_str: "Phone 1".to_string(),
        vendor: "Maker".to_string(),
        unknown_value_8: 32,
        screen: Screen { width: 1, height: 2, density: 3, unknown_value_4: 4, unknown_value_5: 5 },
    }
}

#[test]
fn end_to_end_over_wire_bytes() {
    // prefix 0x00, length 0, state "S"
    let challenge = [
        0x08, 0x02, 0x1a, 0x0d, 0x0a, 0x01, 0x53, 0x12, 0x08, 0x1a, 0x06, 0x08, 0x00, 0x12, 0x02,
        0x30, 0x30,
    ];
    let mut replies = vec![GRANTED.to_vec(), challenge.to_vec()];
    let mut sent: Vec<Vec<u8>> = Vec::new();
    let (mut phase, mut action) = start(config());
    let token = loop {
        match action {
            Action::Send(req) => {
                sent.push(encode_request(&req));
                let bytes = replies.pop().unwrap();
                let event = match decode_response(&bytes) {
                    Ok(r) => Event::Response(r),
                    Err(_) => Event::DecodeError,
                };
                let next = advance(phase, event);
                phase = next.0;
                action = next.1;
            }
            Action::Finish(g) => break g,
            Action::Abort(e) => panic!("failed: {:?}", e),
        }
    };
    assert_eq!(phase, Phase::Granted);
    assert_eq!(token.token, "T");
    let answer = encode_request(&ClientTokenRequest::ChallengeAnswers {
        state: "S".to_string(),
        suffix: "95601890AFD807090000000000000000".to_string(),
    });
    assert_eq!(sent[1], answer);
    assert_eq!(&sent[0][..2], &[0x08, 0x01]);
}
