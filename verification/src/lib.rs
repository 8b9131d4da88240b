//! A real-time relay: clients authenticate over a duplex channel with a
//! bearer token that doubles as their routable identity, and exchange
//! directed text messages through a shared directory of delivery handles.
//! The wire codec, the per-connection session state machine and the
//! directory are verified; the transport loop around them is not part of
//! this crate's logic.

pub mod codec;
pub mod directory;
pub mod messages;
pub mod session;
