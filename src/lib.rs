//! Driving external chess engines over a line-based text protocol.
//!
//! The library holds the protocol's message types and codec, the negotiation
//! of engine options against a stored profile, and the two schedulers that
//! run a conversation with an engine: the interleaver and the bounded
//! best-move search. Both schedulers are pure state machines: a driver that
//! owns the process and its pipes feeds them events and performs the actions
//! they return.
pub mod cli;
pub mod codec;
pub mod decode;
pub mod details;
pub mod incoming;
pub mod interleave;
pub mod options;
pub mod players;
pub mod profile;
pub mod search;
pub mod table;
pub mod text;
