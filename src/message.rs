//! The decoded request and response messages of the token service.
use vstd::prelude::*;

verus! {

/// The kind of a response, as its discriminant says.
#[derive(PartialEq, Eq, Structural, Clone, Copy, Debug)]
pub enum ResponseType {
    Unknown,
    GrantedToken,
    Challenges,
}

/// The parameters of a hashcash challenge: hex text of the prefix, and the
/// number of trailing zero bits required.
#[derive(Debug)]
pub struct HashCashParameters {
    pub length: i32,
    pub prefix: String,
}

/// One challenge entry; only hashcash parameters are read from it.
#[derive(Debug)]
pub struct Challenge {
    pub hash_cash: Option<HashCashParameters>,
}

/// The challenges that the service sets, and the session state to echo back.
#[derive(Debug)]
pub struct ChallengesResponse {
    pub state: String,
    pub challenges: Vec<Challenge>,
}

/// The token that the service grants, with its expiry metadata.
#[derive(Debug)]
pub struct GrantedTokenResponse {
    pub token: String,
    pub expires_after_seconds: i32,
    pub refresh_after_seconds: i32,
    pub domains: Vec<String>,
}

/// A decoded response; at most one of the two bodies is set.
#[derive(Debug)]
pub struct ClientTokenResponse {
    pub response_type: ResponseType,
    pub granted_token: Option<GrantedTokenResponse>,
    pub challenges: Option<ChallengesResponse>,
}

/// Screen geometry reported with the client data.
#[derive(PartialEq, Eq, Structural, Clone, Copy, Debug)]
pub struct Screen {
    pub width: i32,
    pub height: i32,
    pub density: i32,
    pub unknown_value_4: i32,
    pub unknown_value_5: i32,
}

/// The fixed client and device identity sent in the first request.
#[derive(Debug)]
pub struct ClientConfig {
    pub client_id: String,
    pub client_version: String,
    pub device_id: String,
    pub android_version: String,
    pub api_version: i32,
    pub device_name: String,
    pub model_str: String,
    pub vendor: String,
    pub unknown_value_8: i32,
    pub screen: Screen,
}

/// A request to the service. `ClientData` is a client-data request;
/// `ChallengeAnswers` answers one hashcash challenge with an upper-case hex
/// suffix and the echoed session state.
#[derive(Debug)]
pub enum ClientTokenRequest {
    ClientData(ClientConfig),
    ChallengeAnswers { state: String, suffix: String },
}

/// Why an acquisition failed.
#[derive(PartialEq, Eq, Structural, Clone, Copy, Debug)]
pub enum TokenError {
    /// The transport could not deliver a request or its response.
    TransportFailure,
    /// A response, or the prefix text in it, could not be decoded.
    DecodeFailure,
    /// The response's discriminant does not fit the phase.
    UnexpectedResponseType,
    /// A challenges response held no challenge.
    NoChallengePresent,
    /// No counter in the search range gives a suffix that meets the difficulty.
    NoSolution,
}

} // verus!
