use vstd::prelude::*;

verus! {

/// An envelope exchanged between sessions: either a text frame to forward on
/// the owning session's channel, an opaque binary frame, or a request that the
/// owning session close its channel. The `Close` variant is only ever produced
/// internally, never decoded from client input.
#[derive(Debug, Clone)]
pub enum AppMessage {
    Text(String),
    Binary(Vec<u8>),
    Close,
}

/// A client-sent frame, decoded from its wire form.
#[derive(Debug)]
pub enum ClientMessage {
    Auth { token: String },
    Text { to: String, text: String },
}

/// The spec-level shape of a client frame: the wire variants over character
/// sequences. Contracts speak of this type; `ClientMessage` is its executable
/// counterpart.
pub enum ClientFrame {
    Auth { token: Seq<char> },
    Text { to: Seq<char>, text: Seq<char> },
}

/// What a session asks its transport to write after handling one client frame:
/// either a text frame, or the protocol-level close that rejects an empty
/// authentication token.
#[derive(Debug)]
pub enum Outbound {
    Frame(String),
    CloseInvalid,
}

} // verus!
