use clienttoken::hex::encode;
use clienttoken::message::{
    Challenge, ChallengesResponse, ClientConfig, ClientTokenRequest, ClientTokenResponse,
    GrantedTokenResponse, HashCashParameters, ResponseType, Screen, TokenError,
};
use clienttoken::pow::{make_candidate, target_for};
use clienttoken::protocol::{
    advance, parse_challenge, parse_grant, solve_and_answer, start, Action, ChallengeParams,
    Event, Phase,
};

fn config() -> ClientConfig {
    ClientConfig {
        client_id: "client".to_string(),
        client_version: "1.0".to_string(),
        device_id: "device".to_string(),
        android_version: "10".to_string(),
        api_version: 29,
        device_name: "Phone".to_string(),
        model_str: "Phone 1".to_string(),
        vendor: "Maker".to_string(),
        unknown_value_8: 32,
        screen: Screen {
            width: 1440,
            height: 2392,
            density: 411,
            unknown_value_4: 560,
            unknown_value_5: 560,
        },
    }
}

fn challenges(state: &str, entries: Vec<Challenge>) -> ClientTokenResponse {
    ClientTokenResponse {
        response_type: ResponseType::Challenges,
        granted_token: None,
        challenges: Some(ChallengesResponse { state: state.to_string(), challenges: entries }),
    }
}

fn hash_cash(prefix: &str, length: i32) -> Challenge {
    Challenge { hash_cash: Some(HashCashParameters { length, prefix: prefix.to_string() }) }
}

fn granted(token: &str) -> ClientTokenResponse {
    ClientTokenResponse {
        response_type: ResponseType::GrantedToken,
        granted_token: Some(GrantedTokenResponse {
            token: token.to_string(),
            expires_after_seconds: 1209600,
            refresh_after_seconds: 1209000,
            domains: vec!["example.com".to_string()],
        }),
        challenges: None,
    }
}

#[test]
fn granted_response_where_challenge_expected() {
    assert_eq!(parse_challenge(granted("T")).unwrap_err(), TokenError::UnexpectedResponseType);
}

#[test]
fn unknown_response_type_is_rejected() {
    let mut r = challenges("S", vec![hash_cash("00", 0)]);
    r.response_type = ResponseType::Unknown;
    assert_eq!(parse_challenge(r).unwrap_err(), TokenError::UnexpectedResponseType);
}

#[test]
fn empty_challenge_list_is_rejected() {
    assert_eq!(parse_challenge(challenges("S", vec![])).unwrap_err(), TokenError::NoChallengePresent);
}

#[test]
fn missing_challenges_body_is_rejected() {
    let r = ClientTokenResponse {
        response_type: ResponseType::Challenges,
        granted_token: None,
        challenges: None,
    };
    assert_eq!(parse_challenge(r).unwrap_err(), TokenError::NoChallengePresent);
}

#[test]
fn bad_prefix_text_is_a_decode_failure() {
    let r = challenges("S", vec![hash_cash("0x", 1)]);
    assert_eq!(parse_challenge(r).unwrap_err(), TokenError::DecodeFailure);
}

#[test]
fn first_challenge_only_is_read() {
    let r = challenges("S", vec![hash_cash("0a0b", 7), hash_cash("ff", 3)]);
    let p = parse_challenge(r).unwrap();
    assert_eq!(p.state, "S");
    assert_eq!(p.prefix, vec![0x0a, 0x0b]);
    assert_eq!(p.length, 7);
}

#[test]
fn challenge_without_hash_cash_reads_as_empty() {
    let r = challenges("S", vec![Challenge { hash_cash: None }]);
    let p = parse_challenge(r).unwrap();
    assert_eq!(p.prefix, Vec::<u8>::new());
    assert_eq!(p.length, 0);
}

#[test]
fn negative_length_has_no_solution() {
    let p = ChallengeParams { state: "S".to_string(), prefix: vec![0], length: -1 };
    assert_eq!(solve_and_answer(p).unwrap_err(), TokenError::NoSolution);
}

#[test]
fn answer_carries_upper_case_suffix_and_state() {
    let p = ChallengeParams { state: "state-1".to_string(), prefix: vec![0], length: 0 };
    match solve_and_answer(p).unwrap() {
        ClientTokenRequest::ChallengeAnswers { state, suffix } => {
            assert_eq!(state, "state-1");
            assert_eq!(suffix, "95601890AFD807090000000000000000");
        }
        other => panic!("unexpected request {:?}", other),
    }
}

#[test]
fn challenges_response_where_grant_expected() {
    let r = challenges("S", vec![hash_cash("00", 0)]);
    assert_eq!(parse_grant(r).unwrap_err(), TokenError::UnexpectedResponseType);
}

#[test]
fn grant_without_body_is_empty_token() {
    let r = ClientTokenResponse {
        response_type: ResponseType::GrantedToken,
        granted_token: None,
        challenges: None,
    };
    let g = parse_grant(r).unwrap();
    assert_eq!(g.token, "");
    assert_eq!(g.expires_after_seconds, 0);
    assert!(g.domains.is_empty());
}

#[test]
fn transport_and_decode_errors_abort() {
    match advance(Phase::ClientDataSent, Event::TransportError) {
        (Phase::Failed, Action::Abort(TokenError::TransportFailure)) => {}
        other => panic!("unexpected step {:?}", other),
    }
    match advance(Phase::AnswerSent, Event::DecodeError) {
        (Phase::Failed, Action::Abort(TokenError::DecodeFailure)) => {}
        other => panic!("unexpected step {:?}", other),
    }
}

#[test]
fn wrong_phase_response_aborts() {
    match advance(Phase::ClientDataSent, Event::Response(granted("T"))) {
        (Phase::Failed, Action::Abort(TokenError::UnexpectedResponseType)) => {}
        other => panic!("unexpected step {:?}", other),
    }
    match advance(Phase::ClientDataSent, Event::Response(challenges("S", vec![]))) {
        (Phase::Failed, Action::Abort(TokenError::NoChallengePresent)) => {}
        other => panic!("unexpected step {:?}", other),
    }
}

#[test]
fn end_to_end_with_stub_transport() {
    let mut stub = vec![granted("granted-token"), challenges("S", vec![hash_cash("00", 0)])];
    let mut sent: Vec<ClientTokenRequest> = Vec::new();

    let (mut phase, mut action) = start(config());
    let token = loop {
        match action {
            Action::Send(req) => {
                sent.push(req);
                let resp = stub.pop().expect("stub ran out of responses");
                let next = advance(phase, Event::Response(resp));
                phase = next.0;
                action = next.1;
            }
            Action::Finish(g) => break g,
            Action::Abort(e) => panic!("acquisition failed: {:?}", e),
        }
    };

    assert_eq!(phase, Phase::Granted);
    assert_eq!(token.token, "granted-token");
    assert_eq!(token.expires_after_seconds, 1209600);
    assert_eq!(token.domains, vec!["example.com".to_string()]);
    assert_eq!(sent.len(), 2);
    match &sent[0] {
        ClientTokenRequest::ClientData(c) => assert_eq!(c.client_id, "client"),
        other => panic!("unexpected first request {:?}", other),
    }
    match &sent[1] {
        ClientTokenRequest::ChallengeAnswers { state, suffix } => {
            assert_eq!(state, "S");
            assert_eq!(suffix.len(), 32);
            assert!(suffix.chars().all(|c| c.is_ascii_digit() || ('A'..='F').contains(&c)));
            let expected = encode(&make_candidate(target_for(&[]), 0)).to_uppercase();
            assert_eq!(suffix, &expected);
        }
        other => panic!("unexpected second request {:?}", other),
    }
}
