//! Messages the engine sends.
use vstd::prelude::*;
use crate::options::EngineOption;

verus! {

/// The engine's terminal answer to a search: a move, and maybe the reply it expects.
pub struct BestMove {
    pub best: String,
    pub ponder: Option<String>,
}

/// One field of the engine's identity.
pub enum IdString {
    Name(String),
    Author(String),
}

/// A message sent from the engine to the controlling program.
pub enum EngineMessage {
    Id(IdString),
    Option(EngineOption),
    HandshakeComplete,
    ReadyAck,
    BestMove(BestMove),
    Info(String),
    Unrecognized(String),
}

} // verus!
