//! Decoding one line of the engine's output into a message.
//!
//! A line is read without its trailing whitespace. Its first word says what
//! it is; a line that fits none of the known forms is kept, unrecognized,
//! and never causes an error.
//!
//! An option declaration is a run of `key=value` fields, the keys being
//! `name`, `type`, `default`, `min`, `max` and `var`; a value runs up to the
//! space before the next field, so it may hold spaces, and surrounding
//! double quotes are dropped from it.
use vstd::prelude::*;
use crate::codec::string_views;
use crate::incoming::{BestMove, EngineMessage, IdString};
use crate::options::{
    CheckType, ComboType, EngineOption, EngineOptionView, OptionType, OptionTypeView, SpinType,
    StringType,
};
use crate::text::{parse_i64, parsed_i64};

verus! {

/// The keys of an option declaration's fields.
#[derive(Clone, Copy, PartialEq, Eq, Structural, Debug)]
pub enum FieldKey {
    Name,
    Type,
    Default,
    Min,
    Max,
    Var,
}

pub enum EngineMessageView {
    IdName(Seq<char>),
    IdAuthor(Seq<char>),
    Option(EngineOptionView),
    HandshakeComplete,
    ReadyAck,
    BestMove(Seq<char>, Option<Seq<char>>),
    Info(Seq<char>),
    Unrecognized(Seq<char>),
}

impl View for EngineMessage {
    type V = EngineMessageView;

    open spec fn view(&self) -> EngineMessageView {
        match self {
            EngineMessage::Id(IdString::Name(s)) => EngineMessageView::IdName(s@),
            EngineMessage::Id(IdString::Author(s)) => EngineMessageView::IdAuthor(s@),
            EngineMessage::Option(o) => EngineMessageView::Option(o@),
            EngineMessage::HandshakeComplete => EngineMessageView::HandshakeComplete,
            EngineMessage::ReadyAck => EngineMessageView::ReadyAck,
            EngineMessage::BestMove(bm) => EngineMessageView::BestMove(
                bm.best@,
                match bm.ponder {
                    Some(p) => Some(p@),
                    None => None,
                },
            ),
            EngineMessage::Info(s) => EngineMessageView::Info(s@),
            EngineMessage::Unrecognized(s) => EngineMessageView::Unrecognized(s@),
        }
    }
}

pub open spec fn is_space(c: char) -> bool {
    c == ' ' || c == '\t' || c == '\r' || c == '\n'
}

/// A line without its trailing whitespace.
pub open spec fn line_body(s: Seq<char>) -> Seq<char>
    decreases s.len(),
{
    if s.len() > 0 && is_space(s.last()) {
        line_body(s.drop_last())
    } else {
        s
    }
}

/// Whether `lit` occurs in `s` at position `j`.
pub open spec fn starts_at(s: Seq<char>, j: int, lit: Seq<char>) -> bool {
    0 <= j && j + lit.len() <= s.len() && s.subrange(j, j + lit.len()) == lit
}

/// The first position at or after `i` that holds `c`, or the length.
pub open spec fn index_of_from(s: Seq<char>, c: char, i: int) -> int
    decreases s.len() - i,
{
    if i >= s.len() {
        s.len() as int
    } else if s[i] == c {
        i
    } else {
        index_of_from(s, c, i + 1)
    }
}

/// The first word of a line.
pub open spec fn head_word(s: Seq<char>) -> Seq<char> {
    s.subrange(0, index_of_from(s, ' ', 0))
}

/// What follows the first word and the space after it.
pub open spec fn after_head(s: Seq<char>) -> Seq<char> {
    let p = index_of_from(s, ' ', 0);
    if p < s.len() { s.subrange(p + 1, s.len() as int) } else { Seq::empty() }
}

/// A value without surrounding double quotes.
pub open spec fn unquote(v: Seq<char>) -> Seq<char> {
    if v.len() >= 2 && v[0] == '"' && v.last() == '"' {
        v.subrange(1, v.len() - 1)
    } else {
        v
    }
}

pub open spec fn key_text(k: FieldKey) -> Seq<char> {
    match k {
        FieldKey::Name => "name="@,
        FieldKey::Type => "type="@,
        FieldKey::Default => "default="@,
        FieldKey::Min => "min="@,
        FieldKey::Max => "max="@,
        FieldKey::Var => "var="@,
    }
}

/// The field key that starts at position `j`, if one does.
pub open spec fn field_key_at(s: Seq<char>, j: int) -> Option<FieldKey> {
    if starts_at(s, j, key_text(FieldKey::Name)) {
        Some(FieldKey::Name)
    } else if starts_at(s, j, key_text(FieldKey::Type)) {
        Some(FieldKey::Type)
    } else if starts_at(s, j, key_text(FieldKey::Default)) {
        Some(FieldKey::Default)
    } else if starts_at(s, j, key_text(FieldKey::Min)) {
        Some(FieldKey::Min)
    } else if starts_at(s, j, key_text(FieldKey::Max)) {
        Some(FieldKey::Max)
    } else if starts_at(s, j, key_text(FieldKey::Var)) {
        Some(FieldKey::Var)
    } else {
        None
    }
}

/// Whether position `j` is the space before a field.
pub open spec fn is_break(s: Seq<char>, j: int) -> bool {
    0 <= j < s.len() && s[j] == ' ' && field_key_at(s, j + 1) is Some
}

/// Where a value that starts at `i` ends.
pub open spec fn value_end(s: Seq<char>, i: int) -> int
    decreases s.len() - i,
{
    if i >= s.len() {
        s.len() as int
    } else if is_break(s, i) {
        i
    } else {
        value_end(s, i + 1)
    }
}

/// The fields from position `i` on: each key with the span of its value.
pub open spec fn field_spans(s: Seq<char>, i: int) -> Seq<(FieldKey, int, int)>
    decreases s.len() - i,
{
    if i < 0 || i >= s.len() {
        Seq::empty()
    } else {
        match field_key_at(s, i) {
            None => Seq::empty(),
            Some(k) => {
                let vs = i + key_text(k).len();
                let ve = value_end(s, vs);
                if ve <= i {
                    Seq::empty()
                } else if ve >= s.len() {
                    seq![(k, vs, ve)]
                } else {
                    seq![(k, vs, ve)] + field_spans(s, ve + 1)
                }
            },
        }
    }
}

/// The span of the first field with key `k`.
pub open spec fn first_field(fs: Seq<(FieldKey, int, int)>, k: FieldKey) -> Option<(int, int)>
    decreases fs.len(),
{
    if fs.len() == 0 {
        None
    } else if fs[0].0 == k {
        Some((fs[0].1, fs[0].2))
    } else {
        first_field(fs.drop_first(), k)
    }
}

/// The values of all `var` fields, in order.
pub open spec fn variant_values(s: Seq<char>, fs: Seq<(FieldKey, int, int)>) -> Seq<Seq<char>>
    decreases fs.len(),
{
    if fs.len() == 0 {
        Seq::empty()
    } else {
        let prev = variant_values(s, fs.drop_last());
        if fs.last().0 == FieldKey::Var {
            prev.push(unquote(s.subrange(fs.last().1, fs.last().2)))
        } else {
            prev
        }
    }
}

/// The value of the first field with key `k`.
pub open spec fn field_value(s: Seq<char>, k: FieldKey) -> Option<Seq<char>> {
    match first_field(field_spans(s, 0), k) {
        Some((a, b)) => Some(unquote(s.subrange(a, b))),
        None => None,
    }
}

/// The option that a declaration (what follows `option `) describes, if it is well formed:
/// it has a name and a type, and the fields that type needs.
pub open spec fn option_of(s: Seq<char>) -> Option<EngineOptionView> {
    match (field_value(s, FieldKey::Name), field_value(s, FieldKey::Type)) {
        (Some(name), Some(ty)) => {
            let t = option_type_of(s, ty);
            match t {
                Some(t) => Some(EngineOptionView { name, option_type: t }),
                None => None,
            }
        },
        _ => None,
    }
}

/// The kind of option declared with type `ty`, with the declaration's other fields.
pub open spec fn option_type_of(s: Seq<char>, ty: Seq<char>) -> Option<OptionTypeView> {
    let default = field_value(s, FieldKey::Default);
    if ty == "check"@ {
        if default == Some("true"@) {
            Some(OptionTypeView::Check { default: true, value: None })
        } else if default == Some("false"@) {
            Some(OptionTypeView::Check { default: false, value: None })
        } else {
            None
        }
    } else if ty == "spin"@ {
        match (default, field_value(s, FieldKey::Min), field_value(s, FieldKey::Max)) {
            (Some(d), Some(lo), Some(hi)) => match (parsed_i64(d), parsed_i64(lo), parsed_i64(hi)) {
                (Some(d), Some(lo), Some(hi)) => Some(
                    OptionTypeView::Spin { min: lo, max: hi, default: d, value: None },
                ),
                _ => None,
            },
            _ => None,
        }
    } else if ty == "combo"@ {
        match default {
            Some(d) => Some(
                OptionTypeView::Combo {
                    default: d,
                    variants: variant_values(s, field_spans(s, 0)),
                    value: None,
                },
            ),
            None => None,
        }
    } else if ty == "string"@ {
        Some(
            OptionTypeView::String {
                default: match default {
                    Some(d) => d,
                    None => Seq::empty(),
                },
                value: None,
            },
        )
    } else if ty == "button"@ {
        Some(OptionTypeView::Button)
    } else {
        None
    }
}

/// The move and the optional ponder move of a `bestmove` line, from what follows its first word.
pub open spec fn best_move_of(rest: Seq<char>) -> Option<(Seq<char>, Option<Seq<char>>)> {
    let best = head_word(rest);
    let tail = after_head(rest);
    if best.len() == 0 {
        None
    } else if starts_at(tail, 0, "ponder "@) && tail.len() > 7 {
        Some((best, Some(tail.subrange(7, tail.len() as int))))
    } else {
        Some((best, None))
    }
}

/// The message that a line of the engine's output carries.
pub open spec fn message_of(line: Seq<char>) -> EngineMessageView {
    let b = line_body(line);
    let head = head_word(b);
    let rest = after_head(b);
    if b == "handshake-complete"@ {
        EngineMessageView::HandshakeComplete
    } else if b == "ready-ack"@ {
        EngineMessageView::ReadyAck
    } else if head == "id"@ && starts_at(rest, 0, "name="@) {
        EngineMessageView::IdName(unquote(rest.subrange(5, rest.len() as int)))
    } else if head == "id"@ && starts_at(rest, 0, "author="@) {
        EngineMessageView::IdAuthor(unquote(rest.subrange(7, rest.len() as int)))
    } else if head == "bestmove"@ && best_move_of(rest) is Some {
        EngineMessageView::BestMove((best_move_of(rest)->0).0, (best_move_of(rest)->0).1)
    } else if head == "info"@ {
        EngineMessageView::Info(rest)
    } else if head == "option"@ && option_of(rest) is Some {
        EngineMessageView::Option(option_of(rest)->0)
    } else {
        EngineMessageView::Unrecognized(b)
    }
}

/// The spans of a list of fields, as integers.
pub open spec fn spans_view(v: Seq<(FieldKey, usize, usize)>) -> Seq<(FieldKey, int, int)> {
    v.map_values(|f: (FieldKey, usize, usize)| (f.0, f.1 as int, f.2 as int))
}

/// The characters of a string.
pub fn chars_of(s: &str) -> (r: Vec<char>)
    ensures
        r@ == s@,
{
    let n = s.unicode_len();
    let mut r: Vec<char> = Vec::new();
    let mut i: usize = 0;
    while i < n
        invariant
            i <= n,
            n == s@.len(),
            r@ == s@.subrange(0, i as int),
        decreases n - i,
    {
        r.push(s.get_char(i));
        assert(r@ =~= s@.subrange(0, i + 1));
        i = i + 1;
    }
    assert(s@.subrange(0, n as int) =~= s@);
    r
}

/// Whether `lit` occurs in `cs` at position `j`.
pub fn starts_at_exec(cs: &Vec<char>, j: usize, lit: &str) -> (r: bool)
    ensures
        r == starts_at(cs@, j as int, lit@),
{
    let m = lit.unicode_len();
    if j > cs.len() || m > cs.len() - j {
        return false;
    }
    let mut k: usize = 0;
    while k < m
        invariant
            k <= m,
            m == lit@.len(),
            j + m <= cs.len(),
            cs@.subrange(j as int, j + k) == lit@.subrange(0, k as int),
        decreases m - k,
    {
        if cs[j + k] != lit.get_char(k) {
            assert(cs@.subrange(j as int, j + m)[k as int] != lit@[k as int]);
            return false;
        }
        assert(cs@.subrange(j as int, j + k + 1) =~= lit@.subrange(0, k + 1));
        k = k + 1;
    }
    assert(lit@.subrange(0, m as int) =~= lit@);
    true
}

/// Whether the characters from `a` to `b` are exactly `lit`.
fn span_equals(cs: &Vec<char>, a: usize, b: usize, lit: &str) -> (r: bool)
    requires
        a <= b <= cs@.len(),
    ensures
        r == (cs@.subrange(a as int, b as int) == lit@),
{
    let m = lit.unicode_len();
    if b - a != m {
        assert(cs@.subrange(a as int, b as int).len() != lit@.len());
        return false;
    }
    starts_at_exec(cs, a, lit)
}

/// The length of a line without its trailing whitespace.
fn body_len(cs: &Vec<char>) -> (r: usize)
    ensures
        r <= cs@.len(),
        cs@.subrange(0, r as int) == line_body(cs@),
{
    let mut n = cs.len();
    assert(cs@.subrange(0, n as int) =~= cs@);
    while n > 0 && (cs[n - 1] == ' ' || cs[n - 1] == '\t' || cs[n - 1] == '\r' || cs[n - 1] == '\n')
        invariant
            n <= cs@.len(),
            line_body(cs@.subrange(0, n as int)) == line_body(cs@),
        decreases n,
    {
        assert(cs@.subrange(0, n as int).drop_last() =~= cs@.subrange(0, n - 1));
        n = n - 1;
    }
    n
}

/// The first position at or after `i` that holds `c`, or the length.
fn index_of_exec(cs: &Vec<char>, c: char, i: usize) -> (r: usize)
    ensures
        r as int == index_of_from(cs@, c, i as int),
        r <= cs@.len(),
{
    let mut j = i;
    if j > cs.len() {
        return cs.len();
    }
    while j < cs.len() && cs[j] != c
        invariant
            i <= j <= cs@.len(),
            index_of_from(cs@, c, i as int) == index_of_from(cs@, c, j as int),
        decreases cs@.len() - j,
    {
        j = j + 1;
    }
    j
}

/// The field key that starts at position `j`, if one does.
fn key_at(cs: &Vec<char>, j: usize) -> (r: Option<FieldKey>)
    ensures
        r == field_key_at(cs@, j as int),
{
    if starts_at_exec(cs, j, "name=") {
        Some(FieldKey::Name)
    } else if starts_at_exec(cs, j, "type=") {
        Some(FieldKey::Type)
    } else if starts_at_exec(cs, j, "default=") {
        Some(FieldKey::Default)
    } else if starts_at_exec(cs, j, "min=") {
        Some(FieldKey::Min)
    } else if starts_at_exec(cs, j, "max=") {
        Some(FieldKey::Max)
    } else if starts_at_exec(cs, j, "var=") {
        Some(FieldKey::Var)
    } else {
        None
    }
}

/// The length of a key's text.
fn key_len(k: FieldKey) -> (r: usize)
    ensures
        r == key_text(k).len(),
        r > 0,
{
    proof {
        reveal_strlit("name=");
        reveal_strlit("type=");
        reveal_strlit("default=");
        reveal_strlit("min=");
        reveal_strlit("max=");
        reveal_strlit("var=");
    }
    match k {
        FieldKey::Name => "name=".unicode_len(),
        FieldKey::Type => "type=".unicode_len(),
        FieldKey::Default => "default=".unicode_len(),
        FieldKey::Min => "min=".unicode_len(),
        FieldKey::Max => "max=".unicode_len(),
        FieldKey::Var => "var=".unicode_len(),
    }
}

/// Where a value that starts at `i` ends.
fn value_end_exec(cs: &Vec<char>, i: usize) -> (r: usize)
    ensures
        r as int == value_end(cs@, i as int),
        i <= cs@.len() ==> i <= r <= cs@.len(),
{
    if i >= cs.len() {
        return cs.len();
    }
    let mut j = i;
    while j < cs.len()
        invariant
            i <= j <= cs@.len(),
            value_end(cs@, i as int) == value_end(cs@, j as int),
        decreases cs@.len() - j,
    {
        if cs[j] == ' ' && j + 1 <= cs.len() {
            if let Some(_) = key_at(cs, j + 1) {
                return j;
            }
        }
        j = j + 1;
    }
    j
}

/// The fields of an option declaration, with the spans of their values.
fn spans_of(cs: &Vec<char>) -> (r: Vec<(FieldKey, usize, usize)>)
    ensures
        spans_view(r@) == field_spans(cs@, 0),
        forall|f: int| 0 <= f < r@.len() ==> (#[trigger] r@[f]).1 <= r@[f].2 <= cs@.len(),
{
    let mut r: Vec<(FieldKey, usize, usize)> = Vec::new();
    let mut i: usize = 0;
    let mut done = false;
    assert(spans_view(r@) + field_spans(cs@, 0) =~= field_spans(cs@, 0));
    while !done && i < cs.len()
        invariant
            done ==> field_spans(cs@, i as int) =~= Seq::<(FieldKey, int, int)>::empty(),
            spans_view(r@) + field_spans(cs@, i as int) == field_spans(cs@, 0),
            forall|f: int| 0 <= f < r@.len() ==> (#[trigger] r@[f]).1 <= r@[f].2 <= cs@.len(),
        decreases cs@.len() - i + if done { 0int } else { 1int },
    {
        match key_at(cs, i) {
            None => {
                assert(field_spans(cs@, i as int) =~= Seq::<(FieldKey, int, int)>::empty());
                done = true;
            },
            Some(k) => {
                let kl = key_len(k);
                assert(starts_at(cs@, i as int, key_text(k)));
                let vs = i + kl;
                let ve = value_end_exec(cs, vs);
                let ghost before = r@;
                r.push((k, vs, ve));
                assert(spans_view(r@) =~= spans_view(before) + seq![(k, vs as int, ve as int)]);
                if ve >= cs.len() {
                    assert(field_spans(cs@, i as int) =~= seq![(k, vs as int, ve as int)]);
                    assert(field_spans(cs@, ve as int) =~= Seq::<(FieldKey, int, int)>::empty());
                    assert(spans_view(r@) + field_spans(cs@, ve as int) =~= spans_view(before)
                        + field_spans(cs@, i as int));
                    i = ve;
                } else {
                    assert(field_spans(cs@, i as int) =~= seq![(k, vs as int, ve as int)]
                        + field_spans(cs@, ve + 1));
                    assert(spans_view(r@) + field_spans(cs@, ve + 1) =~= spans_view(before)
                        + field_spans(cs@, i as int));
                    i = ve + 1;
                }
            },
        }
    }
    assert(field_spans(cs@, i as int) =~= Seq::<(FieldKey, int, int)>::empty());
    assert(spans_view(r@) + field_spans(cs@, i as int) =~= spans_view(r@));
    r
}

/// The span of the first field with key `k`.
fn first_field_exec(fs: &Vec<(FieldKey, usize, usize)>, k: FieldKey) -> (r: Option<(usize, usize)>)
    ensures
        match r {
            Some((a, b)) => first_field(spans_view(fs@), k) == Some((a as int, b as int)),
            None => first_field(spans_view(fs@), k) is None,
        },
        r matches Some((a, b)) ==> exists|f: int| 0 <= f < fs@.len() && fs@[f].1 == a && fs@[f].2 == b,
{
    let ghost v = spans_view(fs@);
    let mut i: usize = 0;
    assert(v.subrange(0, v.len() as int) =~= v);
    while i < fs.len()
        invariant
            i <= fs@.len(),
            v == spans_view(fs@),
            first_field(v, k) == first_field(v.subrange(i as int, v.len() as int), k),
        decreases fs@.len() - i,
    {
        let ghost w = v.subrange(i as int, v.len() as int);
        assert(w[0] == v[i as int]);
        assert(w.drop_first() =~= v.subrange(i + 1, v.len() as int));
        if fs[i].0 == k {
            return Some((fs[i].1, fs[i].2));
        }
        i = i + 1;
    }
    assert(v.subrange(i as int, v.len() as int) =~= Seq::<(FieldKey, int, int)>::empty());
    None
}

/// The span `a..b` without surrounding double quotes.
fn unquoted(cs: &Vec<char>, a: usize, b: usize) -> (r: (usize, usize))
    requires
        a <= b <= cs@.len(),
    ensures
        a <= r.0 <= r.1 <= b,
        cs@.subrange(r.0 as int, r.1 as int) == unquote(cs@.subrange(a as int, b as int)),
{
    let ghost v = cs@.subrange(a as int, b as int);
    if b - a >= 2 && cs[a] == '"' && cs[b - 1] == '"' {
        assert(v[0] == cs@[a as int]);
        assert(v.last() == cs@[b - 1]);
        assert(cs@.subrange(a + 1, b - 1) =~= v.subrange(1, v.len() - 1));
        (a + 1, b - 1)
    } else {
        proof {
            if v.len() >= 2 {
                assert(v[0] == cs@[a as int]);
                assert(v.last() == cs@[b - 1]);
            }
        }
        (a, b)
    }
}

/// Whether a string is exactly `lit`.
fn is_lit(s: &str, lit: &str) -> (r: bool)
    ensures
        r == (s@ == lit@),
{
    let cs = chars_of(s);
    let r = span_equals(&cs, 0, cs.len(), lit);
    assert(cs@.subrange(0, cs@.len() as int) =~= cs@);
    r
}

/// The value of the first field with key `k`.
fn field_value_exec(s: &str, cs: &Vec<char>, fs: &Vec<(FieldKey, usize, usize)>, k: FieldKey) -> (r: Option<String>)
    requires
        cs@ == s@,
        spans_view(fs@) == field_spans(cs@, 0),
        forall|f: int| 0 <= f < fs@.len() ==> (#[trigger] fs@[f]).1 <= fs@[f].2 <= cs@.len(),
    ensures
        match r {
            Some(v) => field_value(s@, k) == Some(v@),
            None => field_value(s@, k) is None,
        },
{
    match first_field_exec(fs, k) {
        Some((a, b)) => {
            let (x, y) = unquoted(cs, a, b);
            Some(s.substring_char(x, y).to_owned())
        },
        None => None,
    }
}

/// The values of all `var` fields, in order.
fn variant_list(s: &str, cs: &Vec<char>, fs: &Vec<(FieldKey, usize, usize)>) -> (r: Vec<String>)
    requires
        cs@ == s@,
        forall|f: int| 0 <= f < fs@.len() ==> (#[trigger] fs@[f]).1 <= fs@[f].2 <= cs@.len(),
    ensures
        string_views(r@) == variant_values(s@, spans_view(fs@)),
{
    let ghost v = spans_view(fs@);
    let mut r: Vec<String> = Vec::new();
    let mut i: usize = 0;
    assert(string_views(r@) =~= variant_values(s@, v.subrange(0, 0)));
    while i < fs.len()
        invariant
            i <= fs@.len(),
            cs@ == s@,
            v == spans_view(fs@),
            forall|f: int| 0 <= f < fs@.len() ==> (#[trigger] fs@[f]).1 <= fs@[f].2 <= cs@.len(),
            string_views(r@) == variant_values(s@, v.subrange(0, i as int)),
        decreases fs@.len() - i,
    {
        assert(v.subrange(0, i + 1).drop_last() =~= v.subrange(0, i as int));
        assert(v.subrange(0, i + 1).last() == v[i as int]);
        let (k, a, b) = fs[i];
        assert(fs@[i as int].1 <= fs@[i as int].2);
        if k == FieldKey::Var {
            let (x, y) = unquoted(cs, a, b);
            let ghost before = r@;
            r.push(s.substring_char(x, y).to_owned());
            assert(string_views(r@) =~= string_views(before).push(r@.last()@));
        }
        i = i + 1;
    }
    assert(v.subrange(0, i as int) =~= v);
    r
}

/// The kind of option declared with type `ty`.
fn option_type_exec(s: &str, cs: &Vec<char>, fs: &Vec<(FieldKey, usize, usize)>, ty: &str) -> (r: Option<OptionType>)
    requires
        cs@ == s@,
        spans_view(fs@) == field_spans(cs@, 0),
        forall|f: int| 0 <= f < fs@.len() ==> (#[trigger] fs@[f]).1 <= fs@[f].2 <= cs@.len(),
    ensures
        match r {
            Some(t) => option_type_of(s@, ty@) == Some(t@),
            None => option_type_of(s@, ty@) is None,
        },
{
    let default = field_value_exec(s, cs, fs, FieldKey::Default);
    if is_lit(ty, "check") {
        match default {
            Some(d) => {
                if is_lit(d.as_str(), "true") {
                    Some(OptionType::Check(CheckType { default: true, value: None }))
                } else if is_lit(d.as_str(), "false") {
                    Some(OptionType::Check(CheckType { default: false, value: None }))
                } else {
                    None
                }
            },
            None => None,
        }
    } else if is_lit(ty, "spin") {
        let lo = field_value_exec(s, cs, fs, FieldKey::Min);
        let hi = field_value_exec(s, cs, fs, FieldKey::Max);
        match (default, lo, hi) {
            (Some(d), Some(lo), Some(hi)) => match (
                parse_i64(d.as_str()),
                parse_i64(lo.as_str()),
                parse_i64(hi.as_str()),
            ) {
                (Some(d), Some(lo), Some(hi)) => Some(
                    OptionType::Spin(SpinType { min: lo, max: hi, default: d, value: None }),
                ),
                _ => None,
            },
            _ => None,
        }
    } else if is_lit(ty, "combo") {
        match default {
            Some(d) => Some(
                OptionType::Combo(
                    ComboType { default: d, variants: variant_list(s, cs, fs), value: None },
                ),
            ),
            None => None,
        }
    } else if is_lit(ty, "string") {
        let d = match default {
            Some(d) => d,
            None => String::new(),
        };
        Some(OptionType::String(StringType { default: d, value: None }))
    } else if is_lit(ty, "button") {
        Some(OptionType::Button)
    } else {
        None
    }
}

/// Parses an option declaration: what follows `option ` on its line.
pub fn parse_option(s: &str) -> (r: Option<EngineOption>)
    ensures
        match r {
            Some(o) => option_of(s@) == Some(o@),
            None => option_of(s@) is None,
        },
{
    let cs = chars_of(s);
    let fs = spans_of(&cs);
    let name = field_value_exec(s, &cs, &fs, FieldKey::Name);
    let ty = field_value_exec(s, &cs, &fs, FieldKey::Type);
    match (name, ty) {
        (Some(name), Some(ty)) => match option_type_exec(s, &cs, &fs, ty.as_str()) {
            Some(t) => Some(EngineOption { name, option_type: t }),
            None => None,
        },
        _ => None,
    }
}

/// The substring after the first word and the space that follows it.
fn rest_after_head<'a>(s: &'a str, cs: &Vec<char>) -> (r: (usize, &'a str))
    requires
        cs@ == s@,
    ensures
        r.0 as int == index_of_from(s@, ' ', 0),
        r.0 <= s@.len(),
        r.1@ == after_head(s@),
{
    let p = index_of_exec(cs, ' ', 0);
    if p < cs.len() {
        (p, s.substring_char(p + 1, cs.len()))
    } else {
        proof {
            reveal_strlit("");
        }
        (p, "")
    }
}

/// The best move of a `bestmove` line, from what follows its first word.
fn best_move_exec(rest: &str) -> (r: Option<BestMove>)
    ensures
        match r {
            Some(bm) => best_move_of(rest@) == Some((
                bm.best@,
                match bm.ponder {
                    Some(p) => Some(p@),
                    None => None,
                },
            )),
            None => best_move_of(rest@) is None,
        },
{
    let rc = chars_of(rest);
    let (q, tail) = rest_after_head(rest, &rc);
    if q == 0 {
        return None;
    }
    let best = rest.substring_char(0, q).to_owned();
    let tc = chars_of(tail);
    proof {
        reveal_strlit("ponder ");
    }
    if starts_at_exec(&tc, 0, "ponder ") && tc.len() > 7 {
        Some(BestMove { best, ponder: Some(tail.substring_char(7, tc.len()).to_owned()) })
    } else {
        Some(BestMove { best, ponder: None })
    }
}

/// Decodes one line of the engine's output. A line that fits no known form
/// comes back as `Unrecognized`, holding the line without its trailing
/// whitespace.
pub fn decode(line: &str) -> (r: EngineMessage)
    ensures
        r@ == message_of(line@),
{
    let lc = chars_of(line);
    let n = body_len(&lc);
    let body = line.substring_char(0, n);
    let b = chars_of(body);
    let (p, rest) = rest_after_head(body, &b);
    let rc = chars_of(rest);
    proof {
        reveal_strlit("name=");
        reveal_strlit("author=");
    }
    assert(b@ == line_body(line@));
    assert(head_word(b@) == b@.subrange(0, p as int));
    assert(rest@ == after_head(b@));
    if span_equals(&b, 0, b.len(), "handshake-complete") {
        assert(b@.subrange(0, b@.len() as int) =~= b@);
        EngineMessage::HandshakeComplete
    } else if span_equals(&b, 0, b.len(), "ready-ack") {
        assert(b@.subrange(0, b@.len() as int) =~= b@);
        EngineMessage::ReadyAck
    } else {
        assert(b@.subrange(0, b@.len() as int) =~= b@);
        let is_id = span_equals(&b, 0, p, "id");
        if is_id && starts_at_exec(&rc, 0, "name=") {
            let (x, y) = unquoted(&rc, 5, rc.len());
            EngineMessage::Id(IdString::Name(rest.substring_char(x, y).to_owned()))
        } else if is_id && starts_at_exec(&rc, 0, "author=") {
            let (x, y) = unquoted(&rc, 7, rc.len());
            EngineMessage::Id(IdString::Author(rest.substring_char(x, y).to_owned()))
        } else if span_equals(&b, 0, p, "bestmove") {
            match best_move_exec(rest) {
                Some(bm) => EngineMessage::BestMove(bm),
                None => {
                    proof {
                        reveal_strlit("bestmove");
                        reveal_strlit("info");
                        reveal_strlit("option");
                    }
                    EngineMessage::Unrecognized(body.to_owned())
                },
            }
        } else if span_equals(&b, 0, p, "info") {
            EngineMessage::Info(rest.to_owned())
        } else if span_equals(&b, 0, p, "option") {
            match parse_option(rest) {
                Some(o) => EngineMessage::Option(o),
                None => EngineMessage::Unrecognized(body.to_owned()),
            }
        } else {
            EngineMessage::Unrecognized(body.to_owned())
        }
    }
}

} // verus!
