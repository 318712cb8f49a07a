//! Players, settings and opening records.
use vstd::prelude::*;

verus! {

/// A human player.
pub struct HumanPlayer {
    pub name: String,
    pub elo: Option<u16>,
    pub title: Option<Title>,
}

/// A FIDE title.
#[derive(Clone, Copy, PartialEq, Eq, Structural, Debug)]
pub enum Title {
    CM,
    FM,
    IM,
    GM,
}

/// What the program is doing.
#[derive(Clone, Copy, PartialEq, Eq, Structural, Debug)]
pub enum MenuState {
    Play,
    Analyze,
}

/// Known engines, by name and executable.
pub struct Settings {
    pub engines: Vec<(String, String)>,
}

/// The opening fields of a PGN header.
pub struct PGNAbbrevHeader {
    pub eco: Option<String>,
    pub opening: Option<String>,
    pub variation: Option<String>,
}

impl PGNAbbrevHeader {
    pub fn new(eco: Option<String>, opening: Option<String>, variation: Option<String>) -> (r: Self)
        ensures
            r.eco == eco,
            r.opening == opening,
            r.variation == variation,
    {
        PGNAbbrevHeader { eco, opening, variation }
    }
}

} // verus!
