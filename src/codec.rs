//! Outgoing protocol commands and their one-line text encoding.
use vstd::prelude::*;
use crate::text::{append_decimal, append_signed, decimal_text, signed_decimal_text};

verus! {

/// The position a search starts from.
pub enum PositionBase {
    StartPos,
    Fen(String),
}

/// How long the engine is asked to search.
#[derive(Clone, Copy, PartialEq, Eq, Structural, Debug)]
pub enum GoCommand {
    Infinite,
    MoveTime(u64),
}

/// A value handed to the engine for one of its options.
pub enum OptionValue {
    Check(bool),
    Spin(i64),
    StringOrCombo(String),
}

/// A command sent from the controlling program to the engine.
pub enum GuiCommand {
    Identify,
    IsReady,
    NewGame,
    Position(PositionBase, Vec<String>),
    Go(GoCommand),
    Stop,
    SetOption(String, OptionValue),
    Quit,
}

pub enum PositionBaseView {
    StartPos,
    Fen(Seq<char>),
}

pub enum OptionValueView {
    Check(bool),
    Spin(i64),
    StringOrCombo(Seq<char>),
}

pub enum GuiCommandView {
    Identify,
    IsReady,
    NewGame,
    Position(PositionBaseView, Seq<Seq<char>>),
    Go(GoCommand),
    Stop,
    SetOption(Seq<char>, OptionValueView),
    Quit,
}

impl View for PositionBase {
    type V = PositionBaseView;

    open spec fn view(&self) -> PositionBaseView {
        match self {
            PositionBase::StartPos => PositionBaseView::StartPos,
            PositionBase::Fen(f) => PositionBaseView::Fen(f@),
        }
    }
}

impl View for OptionValue {
    type V = OptionValueView;

    open spec fn view(&self) -> OptionValueView {
        match self {
            OptionValue::Check(b) => OptionValueView::Check(*b),
            OptionValue::Spin(n) => OptionValueView::Spin(*n),
            OptionValue::StringOrCombo(s) => OptionValueView::StringOrCombo(s@),
        }
    }
}

/// The views of a list of strings.
pub open spec fn string_views(v: Seq<String>) -> Seq<Seq<char>> {
    v.map_values(|s: String| s@)
}

impl View for GuiCommand {
    type V = GuiCommandView;

    open spec fn view(&self) -> GuiCommandView {
        match self {
            GuiCommand::Identify => GuiCommandView::Identify,
            GuiCommand::IsReady => GuiCommandView::IsReady,
            GuiCommand::NewGame => GuiCommandView::NewGame,
            GuiCommand::Position(b, m) => GuiCommandView::Position(b@, string_views(m@)),
            GuiCommand::Go(g) => GuiCommandView::Go(*g),
            GuiCommand::Stop => GuiCommandView::Stop,
            GuiCommand::SetOption(n, v) => GuiCommandView::SetOption(n@, v@),
            GuiCommand::Quit => GuiCommandView::Quit,
        }
    }
}

/// The moves of a `position` command, each preceded by a space.
pub open spec fn moves_text(ms: Seq<Seq<char>>) -> Seq<char>
    decreases ms.len(),
{
    if ms.len() == 0 {
        Seq::empty()
    } else {
        moves_text(ms.drop_last()) + seq![' '] + ms.last()
    }
}

pub open spec fn bool_text(b: bool) -> Seq<char> {
    if b { "true"@ } else { "false"@ }
}

pub open spec fn option_value_text(v: OptionValueView) -> Seq<char> {
    match v {
        OptionValueView::Check(b) => bool_text(b),
        OptionValueView::Spin(n) => signed_decimal_text(n as int),
        OptionValueView::StringOrCombo(s) => s,
    }
}

/// The text of a command, without its line end.
pub open spec fn command_text(c: GuiCommandView) -> Seq<char> {
    match c {
        GuiCommandView::Identify => "identify"@,
        GuiCommandView::IsReady => "isready"@,
        GuiCommandView::NewGame => "newgame"@,
        GuiCommandView::Position(base, moves) => "position "@ + match base {
            PositionBaseView::StartPos => "startpos"@,
            PositionBaseView::Fen(f) => "fen "@ + f,
        } + if moves.len() == 0 {
            Seq::empty()
        } else {
            " moves"@ + moves_text(moves)
        },
        GuiCommandView::Go(GoCommand::Infinite) => "go infinite"@,
        GuiCommandView::Go(GoCommand::MoveTime(ms)) => "go movetime "@ + decimal_text(ms as nat),
        GuiCommandView::Stop => "stop"@,
        GuiCommandView::SetOption(name, value) => "set-option name="@ + name + " value="@
            + option_value_text(value),
        GuiCommandView::Quit => "quit"@,
    }
}

/// The line that carries a command: its text and a newline.
pub open spec fn command_line(c: GuiCommandView) -> Seq<char> {
    command_text(c) + seq!['\n']
}

fn append_moves(out: &mut String, moves: &Vec<String>)
    ensures
        final(out)@ == old(out)@ + moves_text(string_views(moves@)),
{
    let mut i: usize = 0;
    proof {
        reveal_strlit(" ");
        assert(string_views(moves@).subrange(0, 0) =~= Seq::<Seq<char>>::empty());
        assert(out@ =~= old(out)@ + moves_text(string_views(moves@).subrange(0, 0)));
    }
    while i < moves.len()
        invariant
            i <= moves.len(),
            out@ == old(out)@ + moves_text(string_views(moves@).subrange(0, i as int)),
        decreases moves.len() - i,
    {
        out.append(" ");
        out.append(moves[i].as_str());
        proof {
            let ms = string_views(moves@);
            reveal_strlit(" ");
            assert(ms[i as int] == moves@[i as int]@);
            assert(ms.subrange(0, i + 1).drop_last() =~= ms.subrange(0, i as int));
            assert(ms.subrange(0, i + 1).last() == ms[i as int]);
            assert(out@ =~= old(out)@ + moves_text(ms.subrange(0, i + 1)));
        }
        i = i + 1;
    }
    assert(string_views(moves@).subrange(0, i as int) =~= string_views(moves@));
}

fn append_option_value(out: &mut String, v: &OptionValue)
    ensures
        final(out)@ == old(out)@ + option_value_text(v@),
{
    proof {
        reveal_strlit("true");
        reveal_strlit("false");
    }
    match v {
        OptionValue::Check(b) => {
            if *b {
                out.append("true");
            } else {
                out.append("false");
            }
        },
        OptionValue::Spin(n) => append_signed(out, *n),
        OptionValue::StringOrCombo(s) => out.append(s.as_str()),
    }
}

/// Renders a command as the single newline-terminated line that is written to the engine.
pub fn encode(cmd: &GuiCommand) -> (r: String)
    ensures
        r@ == command_line(cmd@),
{
    let mut out = String::new();
    match cmd {
        GuiCommand::Identify => out.append("identify"),
        GuiCommand::IsReady => out.append("isready"),
        GuiCommand::NewGame => out.append("newgame"),
        GuiCommand::Position(base, moves) => {
            out.append("position ");
            match base {
                PositionBase::StartPos => out.append("startpos"),
                PositionBase::Fen(f) => {
                    out.append("fen ");
                    out.append(f.as_str());
                },
            }
            if moves.len() > 0 {
                out.append(" moves");
                append_moves(&mut out, moves);
            }
        },
        GuiCommand::Go(GoCommand::Infinite) => out.append("go infinite"),
        GuiCommand::Go(GoCommand::MoveTime(ms)) => {
            out.append("go movetime ");
            append_decimal(&mut out, *ms);
        },
        GuiCommand::Stop => out.append("stop"),
        GuiCommand::SetOption(name, value) => {
            out.append("set-option name=");
            out.append(name.as_str());
            out.append(" value=");
            append_option_value(&mut out, value);
        },
        GuiCommand::Quit => out.append("quit"),
    }
    out.append("\n");
    proof {
        reveal_strlit("\n");
    }
    assert(out@ =~= command_line(cmd@));
    out
}

} // verus!
