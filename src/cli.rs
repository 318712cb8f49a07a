//! The command line's subcommands, as plain values.
use vstd::prelude::*;

verus! {

/// The program's command line.
pub struct Command {
    pub subcommand: SubCommand,
}

pub enum SubCommand {
    /// Creates a new profile and writes it to a file.
    New(NewCommand),
    /// Faces two engines off against each other.
    Fight(Faceoff),
    /// Reviews the games of a PGN file.
    Review(ReviewGame),
}

/// Two engines play a game, each with a turn time and a timeout.
pub struct Faceoff {
    /// The white engine's profile.
    pub white: String,
    /// The black engine's profile.
    pub black: String,
    /// Turn time in milliseconds.
    pub time: u64,
    /// Turn timeout in milliseconds.
    pub timeout: u64,
}

/// Reviews the games of a PGN file.
pub struct ReviewGame {
    pub file: String,
}

pub struct NewCommand {
    pub profile: ProfileCommand,
}

pub enum ProfileCommand {
    /// Creates a new player profile.
    Player(NewPlayer),
    /// Creates a new engine profile.
    Bot(NewBot),
}

/// Asks for a player's details on the terminal.
pub struct NewPlayer;

/// Starts an engine, asks for its identity and options, and records them.
pub struct NewBot {
    /// The engine's executable.
    pub bot: String,
    /// Arguments to start it with.
    pub args: Vec<String>,
}

impl Faceoff {
    pub fn tui(&self) -> (r: bool)
        ensures
            !r,
    {
        false
    }
}

impl ReviewGame {
    pub fn tui(&self) -> (r: bool)
        ensures
            r,
    {
        true
    }
}

impl NewPlayer {
    pub fn tui(&self) -> (r: bool)
        ensures
            !r,
    {
        false
    }
}

impl NewBot {
    pub fn tui(&self) -> (r: bool)
        ensures
            !r,
    {
        false
    }
}

impl NewCommand {
    /// Whether the command takes over the terminal.
    pub fn tui(&self) -> (r: bool)
        ensures
            r == false,
    {
        match &self.profile {
            ProfileCommand::Player(p) => p.tui(),
            ProfileCommand::Bot(b) => b.tui(),
        }
    }
}

impl Command {
    /// Whether the command takes over the terminal: only a review does.
    pub fn tui(&self) -> (r: bool)
        ensures
            r == (self.subcommand is Review),
    {
        match &self.subcommand {
            SubCommand::New(np) => np.tui(),
            SubCommand::Fight(f) => f.tui(),
            SubCommand::Review(g) => g.tui(),
        }
    }
}

} // verus!
