use mintymacks::decode::{decode, parse_option};
use mintymacks::incoming::{EngineMessage, IdString};
use mintymacks::options::OptionType;

#[test]
fn decodes_identity_lines_with_quotes() {
    match decode("id name=\"Deep Thought\"\n") {
        EngineMessage::Id(IdString::Name(n)) => assert_eq!(n, "Deep Thought"),
        _ => panic!("expected a name"),
    }
    match decode("id author=\"D. Adams\"") {
        EngineMessage::Id(IdString::Author(a)) => assert_eq!(a, "D. Adams"),
        _ => panic!("expected an author"),
    }
    match decode("id name=Stockfish 16\r\n") {
        EngineMessage::Id(IdString::Name(n)) => assert_eq!(n, "Stockfish 16"),
        _ => panic!("expected a name"),
    }
}

#[test]
fn decodes_acknowledgements() {
    assert!(matches!(decode("handshake-complete\n"), EngineMessage::HandshakeComplete));
    assert!(matches!(decode("ready-ack"), EngineMessage::ReadyAck));
    assert!(matches!(decode("ready-ack  \t\r\n"), EngineMessage::ReadyAck));
}

#[test]
fn decodes_best_moves() {
    match decode("bestmove e2e4 ponder e7e5\n") {
        EngineMessage::BestMove(bm) => {
            assert_eq!(bm.best, "e2e4");
            assert_eq!(bm.ponder, Some("e7e5".to_string()));
        }
        _ => panic!("expected a best move"),
    }
    match decode("bestmove g1f3") {
        EngineMessage::BestMove(bm) => {
            assert_eq!(bm.best, "g1f3");
            assert_eq!(bm.ponder, None);
        }
        _ => panic!("expected a best move"),
    }
    match decode("bestmove") {
        EngineMessage::Unrecognized(s) => assert_eq!(s, "bestmove"),
        _ => panic!("a best move needs a move"),
    }
}

#[test]
fn keeps_informational_and_unknown_lines() {
    match decode("info depth 12 score cp 31\n") {
        EngineMessage::Info(s) => assert_eq!(s, "depth 12 score cp 31"),
        _ => panic!("expected info"),
    }
    match decode("garbage %% line\n") {
        EngineMessage::Unrecognized(s) => assert_eq!(s, "garbage %% line"),
        _ => panic!("expected an unrecognized line"),
    }
    match decode("") {
        EngineMessage::Unrecognized(s) => assert_eq!(s, ""),
        _ => panic!("expected an unrecognized line"),
    }
    match decode("id nickname=x") {
        EngineMessage::Unrecognized(s) => assert_eq!(s, "id nickname=x"),
        _ => panic!("expected an unrecognized line"),
    }
}

#[test]
fn decodes_option_declarations() {
    match decode("option name=Hash type=spin default=16 min=1 max=33554432\n") {
        EngineMessage::Option(o) => {
            assert_eq!(o.name, "Hash");
            match o.option_type {
                OptionType::Spin(s) => {
                    assert_eq!((s.min, s.max, s.default, s.value), (1, 33554432, 16, None));
                }
                _ => panic!("expected a spin"),
            }
        }
        _ => panic!("expected an option"),
    }
    match decode("option name=Clear Hash type=button") {
        EngineMessage::Option(o) => {
            assert_eq!(o.name, "Clear Hash");
            assert!(matches!(o.option_type, OptionType::Button));
        }
        _ => panic!("expected an option"),
    }
    match decode("option name=Ponder type=check default=false") {
        EngineMessage::Option(o) => match o.option_type {
            OptionType::Check(c) => assert_eq!((c.default, c.value), (false, None)),
            _ => panic!("expected a check"),
        },
        _ => panic!("expected an option"),
    }
}

#[test]
fn decodes_combo_and_string_options() {
    let o = parse_option("name=Style type=combo default=Normal var=Solid var=Normal var=Risky Play")
        .expect("a combo");
    assert_eq!(o.name, "Style");
    match o.option_type {
        OptionType::Combo(c) => {
            assert_eq!(c.default, "Normal");
            assert_eq!(c.variants, vec!["Solid", "Normal", "Risky Play"]);
            assert_eq!(c.value, None);
        }
        _ => panic!("expected a combo"),
    }
    let o = parse_option("name=\"Book File\" type=string default=\"my book.bin\"").expect("a string");
    assert_eq!(o.name, "Book File");
    match o.option_type {
        OptionType::String(s) => assert_eq!(s.default, "my book.bin"),
        _ => panic!("expected a string"),
    }
    let o = parse_option("name=NalimovPath type=string").expect("a string");
    match o.option_type {
        OptionType::String(s) => assert_eq!(s.default, ""),
        _ => panic!("expected a string"),
    }
}

#[test]
fn rejects_malformed_option_declarations() {
    assert!(parse_option("type=spin default=1 min=0 max=2").is_none());
    assert!(parse_option("name=Hash").is_none());
    assert!(parse_option("name=Hash type=spin default=x min=0 max=2").is_none());
    assert!(parse_option("name=Hash type=spin default=1 min=0").is_none());
    assert!(parse_option("name=Ponder type=check default=yes").is_none());
    assert!(parse_option("name=Style type=combo var=a").is_none());
    assert!(parse_option("name=X type=slider").is_none());
    match decode("option name=Hash type=wheel") {
        EngineMessage::Unrecognized(s) => assert_eq!(s, "option name=Hash type=wheel"),
        _ => panic!("expected an unrecognized line"),
    }
}
