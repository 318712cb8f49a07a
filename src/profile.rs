//! Stored profiles: a human player's, or an engine's with the option values
//! to set on it.
use vstd::prelude::*;
use indexmap::IndexMap;
use crate::codec::{bool_text, string_views};
use crate::options::{
    CheckType, ComboType, EngineOption, EngineOptionView, OptSet, OptionType, OptionTypeView, SpinType,
    StringType,
};
use crate::table::{option_entries, option_table_entry, option_table_len};
use crate::text::{append_signed, signed_decimal_text};

verus! {

/// A stored profile.
pub enum Profile {
    Player(PlayerProfile),
    Engine(EngineProfile),
}

/// The profile of a human player.
pub struct PlayerProfile {
    pub human: PlayerMetadata,
}

pub struct PlayerMetadata {
    pub name: String,
    pub title: String,
    pub elo: i32,
}

/// The profile of an engine: how to start it, the identity it is expected
/// to report, and the values to set on its options.
pub struct EngineProfile {
    pub engine: EngineMetadata,
    pub options: IndexMap<String, OptSet>,
}

pub struct EngineMetadata {
    pub name: String,
    pub author: String,
    pub command: (String, Vec<String>),
    pub log: bool,
}

/// The variants of a combo option, each in double quotes, separated by `, `.
pub open spec fn quoted_list(vs: Seq<Seq<char>>) -> Seq<char>
    decreases vs.len(),
{
    if vs.len() == 0 {
        Seq::empty()
    } else if vs.len() == 1 {
        seq!['"'] + vs[0] + seq!['"']
    } else {
        quoted_list(vs.drop_last()) + ", \""@ + vs.last() + seq!['"']
    }
}

pub open spec fn int_text(n: i64) -> Seq<char> {
    signed_decimal_text(n as int)
}

/// The lines of a profile for one option, named `k`: the value it has set,
/// or its default commented out, with a comment on what it accepts. A
/// button has none.
pub open spec fn option_lines(k: Seq<char>, t: OptionTypeView) -> Seq<char> {
    match t {
        OptionTypeView::Check { default, value } => match value {
            Some(v) => k + " = "@ + bool_text(v) + " # true or false, default "@ + bool_text(default)
                + "\n\n"@,
            None => "# "@ + k + " = "@ + bool_text(default) + " # true or false, default "@
                + bool_text(default) + "\n\n"@,
        },
        OptionTypeView::Spin { min, max, default, value } => {
            let range = " # between "@ + int_text(min) + " and "@ + int_text(max) + ", default "@
                + int_text(default) + "\n\n"@;
            match value {
                Some(v) => k + " = "@ + int_text(v) + range,
                None => "# "@ + k + " = "@ + int_text(default) + range,
            }
        },
        OptionTypeView::Combo { default, variants, value } => {
            let rest = "\" # default \""@ + default + "\", can be one of "@ + quoted_list(variants)
                + "\n\n"@;
            match value {
                Some(v) => k + " = \""@ + v + rest,
                None => "# "@ + k + " = \""@ + default + rest,
            }
        },
        OptionTypeView::String { default, value } => match value {
            Some(v) => k + " = \""@ + v + "\"\n# ^^^^ default \""@ + default + "\"\n\n"@,
            None => "# "@ + k + " = \""@ + default + "\"\n\n"@,
        },
        OptionTypeView::Button => Seq::empty(),
    }
}

/// The lines of a profile for a list of options, in order.
pub open spec fn options_lines(o: Seq<(Seq<char>, EngineOptionView)>) -> Seq<char>
    decreases o.len(),
{
    if o.len() == 0 {
        Seq::empty()
    } else {
        options_lines(o.drop_last()) + option_lines(o.last().0, o.last().1.option_type)
    }
}

/// The text of an engine profile, given the rendering of its `[engine]` table.
pub open spec fn profile_text(engine_section: Seq<char>, o: Seq<(Seq<char>, EngineOptionView)>) -> Seq<char> {
    "[engine]\n"@ + engine_section + "\n[options]\n"@ + options_lines(o)
}

fn append_bool(out: &mut String, b: bool)
    ensures
        final(out)@ == old(out)@ + bool_text(b),
{
    if b {
        out.append("true");
    } else {
        out.append("false");
    }
}

fn append_quoted_list(out: &mut String, vs: &Vec<String>)
    ensures
        final(out)@ == old(out)@ + quoted_list(string_views(vs@)),
{
    let ghost start = out@;
    let mut i: usize = 0;
    assert(string_views(vs@).subrange(0, 0) =~= Seq::<Seq<char>>::empty());
    assert(out@ =~= start + quoted_list(string_views(vs@).subrange(0, 0)));
    while i < vs.len()
        invariant
            i <= vs@.len(),
            out@ == start + quoted_list(string_views(vs@).subrange(0, i as int)),
        decreases vs@.len() - i,
    {
        let ghost w = string_views(vs@).subrange(0, i + 1);
        assert(w.drop_last() =~= string_views(vs@).subrange(0, i as int));
        assert(w.last() == vs@[i as int]@);
        if i == 0 {
            out.append("\"");
        } else {
            out.append(", \"");
        }
        out.append(vs[i].as_str());
        out.append("\"");
        proof {
            reveal_strlit("\"");
            if i == 0 {
                assert(w.len() == 1);
                assert(out@ =~= start + quoted_list(w));
            } else {
                assert(out@ =~= start + quoted_list(w));
            }
        }
        i = i + 1;
    }
    assert(string_views(vs@).subrange(0, i as int) =~= string_views(vs@));
}

fn append_check_lines(out: &mut String, k: &str, c: &CheckType)
    ensures
        final(out)@ == old(out)@ + option_lines(k@, OptionType::Check(*c)@),
{
    let ghost start = out@;
    match c.value {
        Some(v) => {
            out.append(k);
            out.append(" = ");
            append_bool(out, v);
        },
        None => {
            out.append("# ");
            out.append(k);
            out.append(" = ");
            append_bool(out, c.default);
        },
    }
    out.append(" # true or false, default ");
    append_bool(out, c.default);
    out.append("\n\n");
    assert(out@ =~= start + option_lines(k@, OptionType::Check(*c)@));
}

fn append_spin_lines(out: &mut String, k: &str, st: &SpinType)
    ensures
        final(out)@ == old(out)@ + option_lines(k@, OptionType::Spin(*st)@),
{
    let ghost start = out@;
    match st.value {
        Some(v) => {
            out.append(k);
            out.append(" = ");
            append_signed(out, v);
        },
        None => {
            out.append("# ");
            out.append(k);
            out.append(" = ");
            append_signed(out, st.default);
        },
    }
    let ghost mid = out@;
    out.append(" # between ");
    append_signed(out, st.min);
    out.append(" and ");
    append_signed(out, st.max);
    out.append(", default ");
    append_signed(out, st.default);
    out.append("\n\n");
    assert(out@ =~= mid + (" # between "@ + int_text(st.min) + " and "@ + int_text(st.max)
        + ", default "@ + int_text(st.default) + "\n\n"@));
    assert(out@ =~= start + option_lines(k@, OptionType::Spin(*st)@));
}

fn append_combo_lines(out: &mut String, k: &str, c: &ComboType)
    ensures
        final(out)@ == old(out)@ + option_lines(k@, OptionType::Combo(*c)@),
{
    let ghost start = out@;
    match &c.value {
        Some(v) => {
            out.append(k);
            out.append(" = \"");
            out.append(v.as_str());
        },
        None => {
            out.append("# ");
            out.append(k);
            out.append(" = \"");
            out.append(c.default.as_str());
        },
    }
    let ghost mid = out@;
    out.append("\" # default \"");
    out.append(c.default.as_str());
    out.append("\", can be one of ");
    append_quoted_list(out, &c.variants);
    out.append("\n\n");
    assert(out@ =~= mid + ("\" # default \""@ + c.default@ + "\", can be one of "@ + quoted_list(
        string_views(c.variants@),
    ) + "\n\n"@));
    assert(out@ =~= start + option_lines(k@, OptionType::Combo(*c)@));
}

fn append_string_lines(out: &mut String, k: &str, st: &StringType)
    ensures
        final(out)@ == old(out)@ + option_lines(k@, OptionType::String(*st)@),
{
    let ghost start = out@;
    match &st.value {
        Some(v) => {
            out.append(k);
            out.append(" = \"");
            out.append(v.as_str());
            out.append("\"\n# ^^^^ default \"");
            out.append(st.default.as_str());
            out.append("\"\n\n");
        },
        None => {
            out.append("# ");
            out.append(k);
            out.append(" = \"");
            out.append(st.default.as_str());
            out.append("\"\n\n");
        },
    }
    assert(out@ =~= start + option_lines(k@, OptionType::String(*st)@));
}

fn append_option_lines(out: &mut String, k: &str, t: &OptionType)
    ensures
        final(out)@ == old(out)@ + option_lines(k@, t@),
{
    match t {
        OptionType::Check(c) => append_check_lines(out, k, c),
        OptionType::Spin(st) => append_spin_lines(out, k, st),
        OptionType::Combo(c) => append_combo_lines(out, k, c),
        OptionType::String(st) => append_string_lines(out, k, st),
        OptionType::Button => {
            assert(out@ =~= old(out)@ + option_lines(k@, t@));
        },
    }
}

impl EngineMetadata {
    /// The text of a new engine profile: the `[engine]` table, as rendered
    /// in `engine_section`, then an `[options]` table with the lines of each
    /// declared option in order (see `option_lines`).
    pub fn engine_profile_toml(engine_section: &str, options: &IndexMap<String, EngineOption>) -> (r: String)
        ensures
            r@ == profile_text(engine_section@, option_entries(*options)),
    {
        let mut res = String::new();
        res.append("[engine]\n");
        res.append(engine_section);
        res.append("\n[options]\n");
        let ghost head = res@;
        let ghost o = option_entries(*options);
        let n = option_table_len(options);
        let mut i: usize = 0;
        assert(res@ =~= head + options_lines(o.subrange(0, 0)));
        while i < n
            invariant
                i <= n,
                n == o.len(),
                o == option_entries(*options),
                res@ == head + options_lines(o.subrange(0, i as int)),
            decreases n - i,
        {
            assert(o.subrange(0, i + 1).drop_last() =~= o.subrange(0, i as int));
            if let Some((k, opt)) = option_table_entry(options, i) {
                append_option_lines(&mut res, k.as_str(), &opt.option_type);
                assert(res@ =~= head + options_lines(o.subrange(0, i + 1)));
            }
            i = i + 1;
        }
        assert(o.subrange(0, i as int) =~= o);
        res
    }
}

/// What `str::to_lowercase` returns for a string.
pub uninterp spec fn lower_of(s: Seq<char>) -> Seq<char>;

/// Relies on `str::to_lowercase`: the result depends on the characters alone.
#[verifier::external_body]
fn lowercase(s: &str) -> (r: String)
    ensures
        r@ == lower_of(s@),
{
    s.to_lowercase()
}

/// A name with each space replaced by a dash.
pub open spec fn dashed(s: Seq<char>) -> Seq<char> {
    s.map_values(|c: char| if c == ' ' { '-' } else { c })
}

/// The file name of a profile, from the lowercased name of its player or engine:
/// spaces become dashes, and `.toml` is appended.
pub fn filename_from_lowered(lowered: &str) -> (r: String)
    ensures
        r@ == dashed(lowered@) + ".toml"@,
{
    let n = lowered.unicode_len();
    let mut out = String::new();
    let mut i: usize = 0;
    while i < n
        invariant
            i <= n,
            n == lowered@.len(),
            out@ == dashed(lowered@.subrange(0, i as int)),
        decreases n - i,
    {
        let c = lowered.get_char(i);
        let ghost before = out@;
        assert(lowered@.subrange(0, i + 1) =~= lowered@.subrange(0, i as int).push(c));
        if c == ' ' {
            out.append("-");
            proof {
                reveal_strlit("-");
            }
            assert(out@ =~= before.push('-'));
        } else {
            let one = lowered.substring_char(i, i + 1);
            assert(one@ =~= seq![c]);
            out.append(one);
        }
        assert(out@ =~= dashed(lowered@.subrange(0, i + 1)));
        i = i + 1;
    }
    assert(lowered@.subrange(0, n as int) =~= lowered@);
    out.append(".toml");
    out
}

/// The file name of a profile for a player or engine called `name`: the
/// name lowercased, spaces turned into dashes, and `.toml` appended.
pub fn profile_filename(name: &str) -> (r: String)
    ensures
        r@ == dashed(lower_of(name@)) + ".toml"@,
{
    let lowered = lowercase(name);
    filename_from_lowered(lowered.as_str())
}

} // verus!
