//! The two-round token acquisition: reading the challenge, answering it, and
//! reading the grant, as a state machine that the caller drives with the
//! transport's responses.
use vstd::prelude::*;
use crate::hex::{decode, decoded, encode, encoded, is_hex_text, lower_digit};
use crate::message::{
    Challenge, ChallengesResponse, ClientConfig, ClientTokenRequest, ClientTokenResponse,
    GrantedTokenResponse, ResponseType, TokenError,
};
use crate::pow::{candidate, counter_passes, solve_hash_cash, target_of, COUNTER_LIMIT};
use crate::text::{to_ascii_upper, upper_seq};

verus! {

/// The parameters read from a challenges response.
#[derive(Debug)]
pub struct ChallengeParams {
    pub state: String,
    pub prefix: Vec<u8>,
    pub length: i32,
}

/// Where an acquisition stands.
#[derive(PartialEq, Eq, Structural, Clone, Copy, Debug)]
pub enum Phase {
    Start,
    ClientDataSent,
    AnswerSent,
    Granted,
    Failed,
}

/// What the transport handed back for the last request.
#[derive(Debug)]
pub enum Event {
    Response(ClientTokenResponse),
    TransportError,
    DecodeError,
}

/// What the caller does next.
#[derive(Debug)]
pub enum Action {
    Send(ClientTokenRequest),
    Finish(GrantedTokenResponse),
    Abort(TokenError),
}

/// The challenge entries of a response; none where it holds no challenges body.
pub open spec fn challenge_list(resp: ClientTokenResponse) -> Seq<Challenge> {
    match resp.challenges {
        Some(c) => c.challenges@,
        None => Seq::empty(),
    }
}

/// The session state of a response; empty where it holds no challenges body.
pub open spec fn challenge_state(resp: ClientTokenResponse) -> Seq<char> {
    match resp.challenges {
        Some(c) => c.state@,
        None => Seq::empty(),
    }
}

/// The prefix text of a challenge; empty where it has no hashcash parameters.
pub open spec fn prefix_text(ch: Challenge) -> Seq<char> {
    match ch.hash_cash {
        Some(h) => h.prefix@,
        None => Seq::empty(),
    }
}

/// The difficulty of a challenge; zero where it has no hashcash parameters.
pub open spec fn challenge_length(ch: Challenge) -> i32 {
    match ch.hash_cash {
        Some(h) => h.length,
        None => 0,
    }
}

/// The first challenge of a response.
pub open spec fn first_challenge(resp: ClientTokenResponse) -> Challenge {
    challenge_list(resp)[0]
}

/// The error, if any, that reading the challenge of a response meets.
pub open spec fn challenge_error(resp: ClientTokenResponse) -> Option<TokenError> {
    if resp.response_type != ResponseType::Challenges {
        Some(TokenError::UnexpectedResponseType)
    } else if challenge_list(resp).len() == 0 {
        Some(TokenError::NoChallengePresent)
    } else if !is_hex_text(prefix_text(first_challenge(resp))) {
        Some(TokenError::DecodeFailure)
    } else {
        None
    }
}

/// Some counter in the search range meets the difficulty for the prefix, with
/// the target of the empty seed context.
pub open spec fn search_succeeds(prefix: Seq<u8>, difficulty: u32) -> bool {
    exists|c: u64|
        c <= COUNTER_LIMIT && #[trigger] counter_passes(target_of(Seq::empty()), prefix, difficulty, c)
}

/// The least counter that meets the difficulty for the prefix.
pub open spec fn first_counter(prefix: Seq<u8>, difficulty: u32) -> u64 {
    let t = target_of(Seq::empty());
    choose|c: u64|
        c <= COUNTER_LIMIT && #[trigger] counter_passes(t, prefix, difficulty, c) && forall|d: u64|
            d < c ==> !#[trigger] counter_passes(t, prefix, difficulty, d)
}

/// The answer text for a prefix and difficulty: the upper-case hex text of the
/// first passing candidate suffix.
pub open spec fn answer_text(prefix: Seq<u8>, difficulty: u32) -> Seq<char> {
    upper_seq(encoded(candidate(target_of(Seq::empty()), first_counter(prefix, difficulty))))
}

/// The request that begins an acquisition: client data built from `config`.
pub fn begin_request(config: ClientConfig) -> (r: ClientTokenRequest)
    ensures
        r == ClientTokenRequest::ClientData(config),
{
    ClientTokenRequest::ClientData(config)
}

/// Reads the session state and the first challenge's hashcash parameters from
/// a challenges response. Further challenges are not read.
pub fn parse_challenge(resp: ClientTokenResponse) -> (r: Result<ChallengeParams, TokenError>)
    ensures
        challenge_error(resp) is Some ==> r == Err::<ChallengeParams, TokenError>(
            challenge_error(resp)->0,
        ),
        challenge_error(resp) is None ==> r is Ok && r->Ok_0.state@ == challenge_state(resp)
            && r->Ok_0.prefix@ == decoded(prefix_text(first_challenge(resp)))
            && r->Ok_0.length == challenge_length(first_challenge(resp)),
{
    match resp.response_type {
        ResponseType::Challenges => {},
        _ => return Err(TokenError::UnexpectedResponseType),
    }
    let body = match resp.challenges {
        Some(c) => c,
        None => return Err(TokenError::NoChallengePresent),
    };
    let ChallengesResponse { state, challenges } = body;
    let mut challenges = challenges;
    if challenges.len() == 0 {
        return Err(TokenError::NoChallengePresent);
    }
    let first = challenges.remove(0);
    let (prefix_hex, length) = match first.hash_cash {
        Some(h) => (h.prefix, h.length),
        None => (String::new(), 0i32),
    };
    match decode(prefix_hex.as_str()) {
        Some(prefix) => Ok(ChallengeParams { state, prefix, length }),
        None => Err(TokenError::DecodeFailure),
    }
}

/// Solves the challenge with an empty seed context and builds the answer
/// request: the suffix as upper-case hex text, with the session state echoed.
/// The difficulty is the length read as an unsigned 32-bit value.
pub fn solve_and_answer(params: ChallengeParams) -> (r: Result<ClientTokenRequest, TokenError>)
    ensures
        !search_succeeds(params.prefix@, params.length as u32) ==> r == Err::<
            ClientTokenRequest,
            TokenError,
        >(TokenError::NoSolution),
        search_succeeds(params.prefix@, params.length as u32) ==> r is Ok && match r->Ok_0 {
            ClientTokenRequest::ChallengeAnswers { state, suffix } => state@ == params.state@
                && suffix@ == answer_text(params.prefix@, params.length as u32),
            _ => false,
        },
{
    let context: Vec<u8> = Vec::new();
    let difficulty = params.length as u32;
    let found = solve_hash_cash(context.as_slice(), params.prefix.as_slice(), difficulty);
    assert(context@ =~= Seq::<u8>::empty());
    match found {
        Some(sol) => {
            let t = Ghost(target_of(Seq::empty()));
            assert(counter_passes(t@, params.prefix@, difficulty, sol.counter));
            let fc = Ghost(first_counter(params.prefix@, difficulty));
            assert(fc@ == sol.counter) by {
                if fc@ < sol.counter {
                    assert(!counter_passes(t@, params.prefix@, difficulty, fc@));
                } else if sol.counter < fc@ {
                    assert(!counter_passes(t@, params.prefix@, difficulty, sol.counter));
                }
            }
            let lower = encode(sol.suffix.as_slice());
            let suffix = to_ascii_upper(lower.as_str());
            Ok(ClientTokenRequest::ChallengeAnswers { state: params.state, suffix })
        },
        None => Err(TokenError::NoSolution),
    }
}

/// Reads the granted token from a granted-token response; a response without
/// a token body gives the empty token.
pub fn parse_grant(resp: ClientTokenResponse) -> (r: Result<GrantedTokenResponse, TokenError>)
    ensures
        resp.response_type != ResponseType::GrantedToken ==> r == Err::<
            GrantedTokenResponse,
            TokenError,
        >(TokenError::UnexpectedResponseType),
        resp.response_type == ResponseType::GrantedToken ==> r is Ok && match resp.granted_token {
            Some(g) => r->Ok_0 == g,
            None => r->Ok_0.token@.len() == 0 && r->Ok_0.expires_after_seconds == 0
                && r->Ok_0.refresh_after_seconds == 0 && r->Ok_0.domains@.len() == 0,
        },
{
    match resp.response_type {
        ResponseType::GrantedToken => {},
        _ => return Err(TokenError::UnexpectedResponseType),
    }
    match resp.granted_token {
        Some(g) => Ok(g),
        None => Ok(
            GrantedTokenResponse {
                token: String::new(),
                expires_after_seconds: 0,
                refresh_after_seconds: 0,
                domains: Vec::new(),
            },
        ),
    }
}

/// The step that answers a challenges response.
pub open spec fn challenge_step(resp: ClientTokenResponse, r: (Phase, Action)) -> bool {
    let ch = first_challenge(resp);
    let prefix = decoded(prefix_text(ch));
    let difficulty = challenge_length(ch) as u32;
    if challenge_error(resp) is Some {
        r.0 == Phase::Failed && r.1 == Action::Abort(challenge_error(resp)->0)
    } else if !search_succeeds(prefix, difficulty) {
        r.0 == Phase::Failed && r.1 == Action::Abort(TokenError::NoSolution)
    } else {
        r.0 == Phase::AnswerSent && match r.1 {
            Action::Send(ClientTokenRequest::ChallengeAnswers { state, suffix }) => state@
                == challenge_state(resp) && suffix@ == answer_text(prefix, difficulty),
            _ => false,
        }
    }
}

/// The step that reads a granted-token response.
pub open spec fn grant_step(resp: ClientTokenResponse, r: (Phase, Action)) -> bool {
    if resp.response_type != ResponseType::GrantedToken {
        r.0 == Phase::Failed && r.1 == Action::Abort(TokenError::UnexpectedResponseType)
    } else {
        r.0 == Phase::Granted && match r.1 {
            Action::Finish(g) => match resp.granted_token {
                Some(t) => g == t,
                None => g.token@.len() == 0 && g.expires_after_seconds == 0
                    && g.refresh_after_seconds == 0 && g.domains@.len() == 0,
            },
            _ => false,
        }
    }
}

/// Starts an acquisition: the client-data request goes out first.
pub fn start(config: ClientConfig) -> (r: (Phase, Action))
    ensures
        r.0 == Phase::ClientDataSent,
        r.1 == Action::Send(ClientTokenRequest::ClientData(config)),
{
    (Phase::ClientDataSent, Action::Send(begin_request(config)))
}

/// Moves an acquisition that awaits a response on by one step. Every failure
/// ends it: nothing is retried.
pub fn advance(phase: Phase, event: Event) -> (r: (Phase, Action))
    requires
        phase == Phase::ClientDataSent || phase == Phase::AnswerSent,
    ensures
        event is TransportError ==> r == (Phase::Failed, Action::Abort(TokenError::TransportFailure)),
        event is DecodeError ==> r == (Phase::Failed, Action::Abort(TokenError::DecodeFailure)),
        event is Response && phase == Phase::ClientDataSent ==> challenge_step(event->Response_0, r),
        event is Response && phase == Phase::AnswerSent ==> grant_step(event->Response_0, r),
{
    let resp = match event {
        Event::Response(resp) => resp,
        Event::TransportError => return (Phase::Failed, Action::Abort(TokenError::TransportFailure)),
        Event::DecodeError => return (Phase::Failed, Action::Abort(TokenError::DecodeFailure)),
    };
    match phase {
        Phase::ClientDataSent => {
            let params = match parse_challenge(resp) {
                Ok(p) => p,
                Err(e) => return (Phase::Failed, Action::Abort(e)),
            };
            match solve_and_answer(params) {
                Ok(req) => (Phase::AnswerSent, Action::Send(req)),
                Err(e) => (Phase::Failed, Action::Abort(e)),
            }
        },
        _ => match parse_grant(resp) {
            Ok(g) => (Phase::Granted, Action::Finish(g)),
            Err(e) => (Phase::Failed, Action::Abort(e)),
        },
    }
}

/// Upper-case hexadecimal digit.
pub open spec fn is_upper_hex_digit(c: char) -> bool {
    ('0' <= c && c <= '9') || ('A' <= c && c <= 'F')
}

/// The answer text for any prefix and difficulty is 32 upper-case hex digits.
pub proof fn lemma_answer_is_upper_hex(prefix: Seq<u8>, difficulty: u32)
    ensures
        answer_text(prefix, difficulty).len() == 32,
        forall|i: int|
            0 <= i < 32 ==> is_upper_hex_digit(#[trigger] answer_text(prefix, difficulty)[i]),
{
    let b = candidate(target_of(Seq::empty()), first_counter(prefix, difficulty));
    let e = encoded(b);
    assert(b.len() == 16);
    assert forall|i: int| 0 <= i < 32 implies is_upper_hex_digit(#[trigger] upper_seq(e)[i]) by {
        let v: u8 = if i % 2 == 0 { b[i / 2] / 16 } else { b[i / 2] % 16 };
        assert(v < 16);
        assert(e[i] == lower_digit(v));
    }
}

} // verus!
