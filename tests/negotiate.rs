use indexmap::IndexMap;
use mintymacks::codec::{encode, GuiCommand, OptionValue};
use mintymacks::decode::decode;
use mintymacks::details::EngineDetails;
use mintymacks::incoming::EngineMessage;
use mintymacks::options::{OptSet, OptionType};
use mintymacks::profile::{EngineMetadata, EngineProfile};

fn handshake() -> Vec<EngineMessage> {
    [
        "id name=\"Deep Thought\"",
        "id author=\"D. Adams\"",
        "option name=Hash type=spin default=16 min=1 max=1024",
        "option name=Ponder type=check default=false",
        "option name=Style type=combo default=Normal var=Solid var=Normal var=Risky",
        "option name=Book type=string default=book.bin",
        "option name=Clear Hash type=button",
        "handshake-complete",
    ]
    .iter()
    .map(|l| decode(l))
    .collect()
}

fn profile(name: &str, author: &str, options: &[(&str, OptSet)]) -> EngineProfile {
    let mut map = IndexMap::new();
    for (k, v) in options {
        let v = match v {
            OptSet::Check(b) => OptSet::Check(*b),
            OptSet::Spin(n) => OptSet::Spin(*n),
            OptSet::String(s) => OptSet::String(s.clone()),
        };
        map.insert(k.to_string(), v);
    }
    EngineProfile {
        engine: EngineMetadata {
            name: name.to_string(),
            author: author.to_string(),
            command: ("./deep-thought".to_string(), vec![]),
            log: false,
        },
        options: map,
    }
}

fn lines(q: &std::collections::VecDeque<GuiCommand>) -> Vec<String> {
    q.iter().map(encode).collect()
}

#[test]
fn handshake_gives_identity() {
    let details = EngineDetails::new(&handshake());
    assert_eq!(details.name, "Deep Thought");
    assert_eq!(details.author, "D. Adams");
    let keys: Vec<&String> = details.options.keys().collect();
    assert_eq!(keys, vec!["Hash", "Ponder", "Style", "Book", "Clear Hash"]);
}

#[test]
fn later_identity_and_declarations_win() {
    let msgs: Vec<EngineMessage> = [
        "id name=First",
        "option name=Hash type=spin default=16 min=1 max=1024",
        "option name=Ponder type=check default=false",
        "id name=Second",
        "option name=Hash type=spin default=64 min=1 max=2048",
    ]
    .iter()
    .map(|l| decode(l))
    .collect();
    let details = EngineDetails::new(&msgs);
    assert_eq!(details.name, "Second");
    assert_eq!(details.author, "");
    let keys: Vec<&String> = details.options.keys().collect();
    assert_eq!(keys, vec!["Hash", "Ponder"]);
    match &details.options["Hash"].option_type {
        OptionType::Spin(s) => assert_eq!((s.default, s.max), (64, 2048)),
        _ => panic!("expected a spin"),
    }
}

#[test]
fn malformed_line_between_good_lines_is_ignored() {
    let with_noise: Vec<EngineMessage> = [
        "id name=\"Deep Thought\"",
        "%%% not a protocol line %%%",
        "id author=\"D. Adams\"",
    ]
    .iter()
    .map(|l| decode(l))
    .collect();
    assert!(matches!(with_noise[1], EngineMessage::Unrecognized(_)));
    let details = EngineDetails::new(&with_noise);
    assert_eq!(details.name, "Deep Thought");
    assert_eq!(details.author, "D. Adams");
}

#[test]
fn matching_profile_applies_overrides() {
    let mut details = EngineDetails::new(&handshake());
    let prof = profile(
        "Deep Thought",
        "D. Adams",
        &[
            ("Hash", OptSet::Spin(256)),
            ("Ponder", OptSet::Check(true)),
            ("Style", OptSet::String("Risky".to_string())),
            ("Book", OptSet::String("other.bin".to_string())),
            ("Missing", OptSet::Spin(1)),
        ],
    );
    details.load_profile(&prof);
    assert_eq!(
        lines(&details.set_options()),
        vec![
            "set-option name=Hash value=256\n",
            "set-option name=Ponder value=true\n",
            "set-option name=Style value=Risky\n",
            "set-option name=Book value=other.bin\n",
        ]
    );
}

#[test]
fn mismatched_kinds_and_variants_are_skipped() {
    let mut details = EngineDetails::new(&handshake());
    let prof = profile(
        "Deep Thought",
        "D. Adams",
        &[
            ("Hash", OptSet::Check(true)),
            ("Ponder", OptSet::Spin(1)),
            ("Style", OptSet::String("Reckless".to_string())),
            ("Book", OptSet::Spin(3)),
            ("Clear Hash", OptSet::Check(true)),
        ],
    );
    details.load_profile(&prof);
    assert!(details.set_options().is_empty());
}

#[test]
fn changed_author_applies_nothing() {
    let mut details = EngineDetails::new(&handshake());
    let prof = profile("Deep Thought", "Someone Else", &[("Hash", OptSet::Spin(256))]);
    details.load_profile(&prof);
    assert!(details.set_options().is_empty());
    let prof = profile("Deep Thought II", "D. Adams", &[("Hash", OptSet::Spin(256))]);
    details.load_profile(&prof);
    assert!(details.set_options().is_empty());
}

#[test]
fn set_options_skips_buttons_and_unset() {
    let details = EngineDetails::new(&handshake());
    assert!(details.set_options().is_empty());
    let mut details = EngineDetails::new(&handshake());
    let prof = profile("Deep Thought", "D. Adams", &[("Ponder", OptSet::Check(false))]);
    details.load_profile(&prof);
    let q = details.set_options();
    assert_eq!(q.len(), 1);
    match &q[0] {
        GuiCommand::SetOption(name, OptionValue::Check(b)) => {
            assert_eq!(name, "Ponder");
            assert!(!*b);
        }
        _ => panic!("expected a set-option command"),
    }
}
