use clienttoken::message::{ClientConfig, ClientTokenRequest, Screen};
use clienttoken::wire::{encode_request, request_fits_check, MAX_TEXT_LEN};

fn empty_config() -> ClientConfig {
    ClientConfig {
        client_id: String::new(),
        client_version: String::new(),
        device_id: String::new(),
        android_version: String::new(),
        api_version: 0,
        device_name: String::new(),
        model_str: String::new(),
        vendor: String::new(),
        unknown_value_8: 0,
        screen: Screen { width: 0, height: 0, density: 0, unknown_value_4: 0, unknown_value_5: 0 },
    }
}

#[test]
fn answers_request_bytes() {
    let r = ClientTokenRequest::ChallengeAnswers { state: "S".to_string(), suffix: "AB".to_string() };
    assert!(request_fits_check(&r));
    assert_eq!(
        encode_request(&r),
        vec![
            0x08, 0x02, 0x1a, 0x0d, 0x0a, 0x01, 0x53, 0x12, 0x08, 0x08, 0x03, 0x22, 0x04, 0x0a,
            0x02, 0x41, 0x42
        ]
    );
}

#[test]
fn client_data_with_defaults_leaves_fields_out() {
    let r = ClientTokenRequest::ClientData(empty_config());
    assert_eq!(
        encode_request(&r),
        vec![0x08, 0x01, 0x12, 0x08, 0x1a, 0x06, 0x0a, 0x04, 0x0a, 0x02, 0x0a, 0x00]
    );
}

#[test]
fn negative_int32_takes_ten_bytes() {
    let mut c = empty_config();
    c.api_version = -1;
    let r = ClientTokenRequest::ClientData(c);
    let mut android = vec![0x0a, 0x00, 0x18];
    android.extend([0xff; 9]);
    android.push(0x01);
    let mut expected = vec![0x08, 0x01, 0x12, 0x13, 0x1a, 0x11, 0x0a, 0x0f, 0x0a, 0x0d];
    expected.extend(android);
    assert_eq!(encode_request(&r), expected);
}

#[test]
fn client_data_with_values() {
    let mut c = empty_config();
    c.client_id = "id".to_string();
    c.screen.width = 300;
    let r = ClientTokenRequest::ClientData(c);
    // screen: 08 ac 02; android: 0a 03 <screen>; platform: 0a 05 <android>;
    // sdk: 0a 07 <platform>; client data: 12 02 'i' 'd' 1a 09 <sdk>
    assert_eq!(
        encode_request(&r),
        vec![
            0x08, 0x01, 0x12, 0x0f, 0x12, 0x02, b'i', b'd', 0x1a, 0x09, 0x0a, 0x07, 0x0a, 0x05,
            0x0a, 0x03, 0x08, 0xac, 0x02
        ]
    );
}

#[test]
fn oversized_text_does_not_fit() {
    let r = ClientTokenRequest::ChallengeAnswers {
        state: "x".repeat(MAX_TEXT_LEN + 1),
        suffix: "AB".to_string(),
    };
    assert!(!request_fits_check(&r));
}
