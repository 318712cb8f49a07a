use mintymacks::codec::{encode, GoCommand, GuiCommand, OptionValue, PositionBase};
use mintymacks::text::{append_decimal, append_signed, parse_i64};

#[test]
fn encodes_simple_commands() {
    assert_eq!(encode(&GuiCommand::Identify), "identify\n");
    assert_eq!(encode(&GuiCommand::IsReady), "isready\n");
    assert_eq!(encode(&GuiCommand::NewGame), "newgame\n");
    assert_eq!(encode(&GuiCommand::Stop), "stop\n");
    assert_eq!(encode(&GuiCommand::Quit), "quit\n");
    assert_eq!(encode(&GuiCommand::Go(GoCommand::Infinite)), "go infinite\n");
    assert_eq!(encode(&GuiCommand::Go(GoCommand::MoveTime(1500))), "go movetime 1500\n");
}

#[test]
fn encodes_positions() {
    let start = GuiCommand::Position(PositionBase::StartPos, vec![]);
    assert_eq!(encode(&start), "position startpos\n");
    let moved = GuiCommand::Position(
        PositionBase::StartPos,
        vec!["e2e4".to_string(), "e7e5".to_string()],
    );
    assert_eq!(encode(&moved), "position startpos moves e2e4 e7e5\n");
    let fen = GuiCommand::Position(
        PositionBase::Fen("8/8/8/8/8/8/8/K6k w - - 0 1".to_string()),
        vec!["a1a2".to_string()],
    );
    assert_eq!(encode(&fen), "position fen 8/8/8/8/8/8/8/K6k w - - 0 1 moves a1a2\n");
}

#[test]
fn encodes_set_option_values() {
    let check = GuiCommand::SetOption("Ponder".to_string(), OptionValue::Check(true));
    assert_eq!(encode(&check), "set-option name=Ponder value=true\n");
    let off = GuiCommand::SetOption("Ponder".to_string(), OptionValue::Check(false));
    assert_eq!(encode(&off), "set-option name=Ponder value=false\n");
    let spin = GuiCommand::SetOption("Contempt".to_string(), OptionValue::Spin(-25));
    assert_eq!(encode(&spin), "set-option name=Contempt value=-25\n");
    let text = GuiCommand::SetOption(
        "Book File".to_string(),
        OptionValue::StringOrCombo("book.bin".to_string()),
    );
    assert_eq!(encode(&text), "set-option name=Book File value=book.bin\n");
}

#[test]
fn renders_decimals() {
    let mut s = String::new();
    append_decimal(&mut s, 0);
    assert_eq!(s, "0");
    let mut s = String::from("x=");
    append_decimal(&mut s, u64::MAX);
    assert_eq!(s, "x=18446744073709551615");
    let mut s = String::new();
    append_signed(&mut s, i64::MIN);
    assert_eq!(s, "-9223372036854775808");
    let mut s = String::new();
    append_signed(&mut s, 42);
    assert_eq!(s, "42");
}

#[test]
fn parses_decimals() {
    assert_eq!(parse_i64("0"), Some(0));
    assert_eq!(parse_i64("-17"), Some(-17));
    assert_eq!(parse_i64("9223372036854775807"), Some(i64::MAX));
    assert_eq!(parse_i64("-9223372036854775808"), Some(i64::MIN));
    assert_eq!(parse_i64("9223372036854775808"), None);
    assert_eq!(parse_i64("123456789012345678901234"), None);
    assert_eq!(parse_i64(""), None);
    assert_eq!(parse_i64("-"), None);
    assert_eq!(parse_i64("12a"), None);
    assert_eq!(parse_i64("+5"), None);
}
