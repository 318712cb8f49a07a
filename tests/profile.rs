use indexmap::IndexMap;
use mintymacks::cli::{Command, Faceoff, NewBot, NewCommand, NewPlayer, ProfileCommand, ReviewGame, SubCommand};
use mintymacks::decode::decode;
use mintymacks::details::EngineDetails;
use mintymacks::incoming::EngineMessage;
use mintymacks::options::OptSet;
use mintymacks::players::PGNAbbrevHeader;
use mintymacks::profile::{filename_from_lowered, profile_filename, EngineMetadata, EngineProfile};

#[test]
fn renders_profile_options() {
    let msgs: Vec<EngineMessage> = [
        "id name=Deep Thought",
        "id author=D. Adams",
        "option name=Ponder type=check default=false",
        "option name=Hash type=spin default=16 min=1 max=1024",
        "option name=Style type=combo default=Normal var=Solid var=Normal",
        "option name=Book type=string default=book.bin",
        "option name=Clear Hash type=button",
    ]
    .iter()
    .map(|l| decode(l))
    .collect();
    let mut details = EngineDetails::new(&msgs);
    let text = EngineMetadata::engine_profile_toml("name = \"Deep Thought\"\n", &details.options);
    assert_eq!(
        text,
        "[engine]\nname = \"Deep Thought\"\n\n[options]\n\
         # Ponder = false # true or false, default false\n\n\
         # Hash = 16 # between 1 and 1024, default 16\n\n\
         # Style = \"Normal\" # default \"Normal\", can be one of \"Solid\", \"Normal\"\n\n\
         # Book = \"book.bin\"\n\n"
    );

    let mut overrides = IndexMap::new();
    overrides.insert("Ponder".to_string(), OptSet::Check(true));
    overrides.insert("Hash".to_string(), OptSet::Spin(-3));
    overrides.insert("Style".to_string(), OptSet::String("Solid".to_string()));
    overrides.insert("Book".to_string(), OptSet::String("mine.bin".to_string()));
    let prof = EngineProfile {
        engine: EngineMetadata {
            name: "Deep Thought".to_string(),
            author: "D. Adams".to_string(),
            command: ("dt".to_string(), vec![]),
            log: false,
        },
        options: overrides,
    };
    details.load_profile(&prof);
    let text = EngineMetadata::engine_profile_toml("", &details.options);
    assert_eq!(
        text,
        "[engine]\n\n[options]\n\
         Ponder = true # true or false, default false\n\n\
         Hash = -3 # between 1 and 1024, default 16\n\n\
         Style = \"Solid\" # default \"Normal\", can be one of \"Solid\", \"Normal\"\n\n\
         Book = \"mine.bin\"\n# ^^^^ default \"book.bin\"\n\n"
    );
}

#[test]
fn profile_file_names() {
    assert_eq!(profile_filename("Deep Thought"), "deep-thought.toml");
    assert_eq!(profile_filename("Stockfish"), "stockfish.toml");
    assert_eq!(profile_filename(""), ".toml");
    assert_eq!(filename_from_lowered("a b  c"), "a-b--c.toml");
}

#[test]
fn only_review_takes_the_terminal() {
    let review = Command { subcommand: SubCommand::Review(ReviewGame { file: "g.pgn".to_string() }) };
    assert!(review.tui());
    let fight = Command {
        subcommand: SubCommand::Fight(Faceoff {
            white: "w.toml".to_string(),
            black: "b.toml".to_string(),
            time: 100,
            timeout: 1000,
        }),
    };
    assert!(!fight.tui());
    let new_bot = NewCommand { profile: ProfileCommand::Bot(NewBot { bot: "sf".to_string(), args: vec![] }) };
    assert!(!new_bot.tui());
    let new_player = Command { subcommand: SubCommand::New(NewCommand { profile: ProfileCommand::Player(NewPlayer) }) };
    assert!(!new_player.tui());
}

#[test]
fn abbreviated_header_keeps_fields() {
    let h = PGNAbbrevHeader::new(Some("C20".to_string()), Some("King's Pawn".to_string()), None);
    assert_eq!(h.eco.as_deref(), Some("C20"));
    assert_eq!(h.opening.as_deref(), Some("King's Pawn"));
    assert_eq!(h.variation, None);
}
