//! Acquisition of a client token through a hashcash challenge-response
//! exchange: the proof-of-work solver (`pow`), hex text (`hex`, `text`), the
//! decoded messages (`message`), the protocol state machine that drives the
//! two request/response rounds (`protocol`), and the wire form of the
//! requests (`wire`).

pub mod text;
pub mod hex;
pub mod pow;
pub mod message;
pub mod protocol;
pub mod wire;
pub mod reader;
