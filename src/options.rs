//! Engine-declared options, the values a profile sets for them, and the rule
//! that decides whether a profile value applies to a declared option.
use vstd::prelude::*;
use crate::codec::{string_views, OptionValue, OptionValueView};

verus! {

/// A boolean option.
pub struct CheckType {
    pub default: bool,
    pub value: Option<bool>,
}

/// An integer option with a declared range.
pub struct SpinType {
    pub min: i64,
    pub max: i64,
    pub default: i64,
    pub value: Option<i64>,
}

/// A string option restricted to a list of variants.
pub struct ComboType {
    pub default: String,
    pub variants: Vec<String>,
    pub value: Option<String>,
}

/// A free string option.
pub struct StringType {
    pub default: String,
    pub value: Option<String>,
}

/// The kind of an option, with its declared data and its current value.
pub enum OptionType {
    Check(CheckType),
    Spin(SpinType),
    Combo(ComboType),
    String(StringType),
    Button,
}

/// An option as the engine declared it.
pub struct EngineOption {
    pub name: String,
    pub option_type: OptionType,
}

/// A value for an option, as a profile stores it.
pub enum OptSet {
    Check(bool),
    String(String),
    Spin(i64),
}

#[allow(inconsistent_fields)]
pub enum OptionTypeView {
    Check { default: bool, value: Option<bool> },
    Spin { min: i64, max: i64, default: i64, value: Option<i64> },
    Combo { default: Seq<char>, variants: Seq<Seq<char>>, value: Option<Seq<char>> },
    String { default: Seq<char>, value: Option<Seq<char>> },
    Button,
}

pub struct EngineOptionView {
    pub name: Seq<char>,
    pub option_type: OptionTypeView,
}

pub enum OptSetView {
    Check(bool),
    String(Seq<char>),
    Spin(i64),
}

/// The view of an optional string.
pub open spec fn opt_string_view(o: Option<String>) -> Option<Seq<char>> {
    match o {
        Some(s) => Some(s@),
        None => None,
    }
}

impl View for OptionType {
    type V = OptionTypeView;

    open spec fn view(&self) -> OptionTypeView {
        match self {
            OptionType::Check(c) => OptionTypeView::Check { default: c.default, value: c.value },
            OptionType::Spin(s) => OptionTypeView::Spin {
                min: s.min,
                max: s.max,
                default: s.default,
                value: s.value,
            },
            OptionType::Combo(c) => OptionTypeView::Combo {
                default: c.default@,
                variants: string_views(c.variants@),
                value: opt_string_view(c.value),
            },
            OptionType::String(s) => OptionTypeView::String {
                default: s.default@,
                value: opt_string_view(s.value),
            },
            OptionType::Button => OptionTypeView::Button,
        }
    }
}

impl View for EngineOption {
    type V = EngineOptionView;

    open spec fn view(&self) -> EngineOptionView {
        EngineOptionView { name: self.name@, option_type: self.option_type@ }
    }
}

impl View for OptSet {
    type V = OptSetView;

    open spec fn view(&self) -> OptSetView {
        match self {
            OptSet::Check(b) => OptSetView::Check(*b),
            OptSet::String(s) => OptSetView::String(s@),
            OptSet::Spin(n) => OptSetView::Spin(*n),
        }
    }
}

/// An option's kind after a profile value is applied to it: the value is
/// taken only when its kind matches the option's, and for a combo only when
/// it is one of the declared variants; otherwise the option is unchanged.
pub open spec fn overridden(t: OptionTypeView, v: OptSetView) -> OptionTypeView {
    match (t, v) {
        (OptionTypeView::Check { default, value }, OptSetView::Check(b)) =>
            OptionTypeView::Check { default, value: Some(b) },
        (OptionTypeView::Spin { min, max, default, value }, OptSetView::Spin(n)) =>
            OptionTypeView::Spin { min, max, default, value: Some(n) },
        (OptionTypeView::Combo { default, variants, value }, OptSetView::String(s)) =>
            if variants.contains(s) {
                OptionTypeView::Combo { default, variants, value: Some(s) }
            } else {
                t
            },
        (OptionTypeView::String { default, value }, OptSetView::String(s)) =>
            OptionTypeView::String { default, value: Some(s) },
        _ => t,
    }
}

/// The value that is handed to the engine for an option: its current value,
/// when it has one; a button has none.
pub open spec fn resolved_value(t: OptionTypeView) -> Option<OptionValueView> {
    match t {
        OptionTypeView::Check { value: Some(b), .. } => Some(OptionValueView::Check(b)),
        OptionTypeView::Spin { value: Some(n), .. } => Some(OptionValueView::Spin(n)),
        OptionTypeView::Combo { value: Some(s), .. } => Some(OptionValueView::StringOrCombo(s)),
        OptionTypeView::String { value: Some(s), .. } => Some(OptionValueView::StringOrCombo(s)),
        _ => None,
    }
}

/// A copy of a list of strings.
pub fn copy_strings(v: &Vec<String>) -> (r: Vec<String>)
    ensures
        string_views(r@) == string_views(v@),
{
    let mut r: Vec<String> = Vec::new();
    let mut i: usize = 0;
    while i < v.len()
        invariant
            i <= v.len(),
            r@ == v@.subrange(0, i as int),
        decreases v.len() - i,
    {
        r.push(v[i].clone());
        assert(r@ =~= v@.subrange(0, i + 1));
        i = i + 1;
    }
    assert(v@.subrange(0, i as int) =~= v@);
    r
}

/// A copy of an optional string.
pub fn copy_opt_string(o: &Option<String>) -> (r: Option<String>)
    ensures
        opt_string_view(r) == opt_string_view(*o),
{
    match o {
        Some(s) => Some(s.clone()),
        None => None,
    }
}

/// Whether `s` is one of `variants`.
pub fn contains_string(variants: &Vec<String>, s: &String) -> (r: bool)
    ensures
        r == string_views(variants@).contains(s@),
{
    let mut i: usize = 0;
    while i < variants.len()
        invariant
            i <= variants.len(),
            forall|j: int| 0 <= j < i ==> variants@[j]@ != s@,
        decreases variants.len() - i,
    {
        if variants[i] == *s {
            assert(string_views(variants@)[i as int] == s@);
            return true;
        }
        i = i + 1;
    }
    proof {
        if string_views(variants@).contains(s@) {
            let j = choose|j: int| 0 <= j < string_views(variants@).len() && string_views(variants@)[j] == s@;
            assert(variants@[j]@ == s@);
        }
    }
    false
}

impl OptionType {
    /// This kind with a profile value applied to it (see `overridden`).
    pub fn with_override(&self, v: &OptSet) -> (r: OptionType)
        ensures
            r@ == overridden(self@, v@),
    {
        match (self, v) {
            (OptionType::Check(c), OptSet::Check(b)) =>
                OptionType::Check(CheckType { default: c.default, value: Some(*b) }),
            (OptionType::Spin(st), OptSet::Spin(n)) => OptionType::Spin(
                SpinType { min: st.min, max: st.max, default: st.default, value: Some(*n) },
            ),
            (OptionType::Combo(c), OptSet::String(s)) => {
                let value = if contains_string(&c.variants, s) {
                    Some(s.clone())
                } else {
                    copy_opt_string(&c.value)
                };
                OptionType::Combo(
                    ComboType {
                        default: c.default.clone(),
                        variants: copy_strings(&c.variants),
                        value,
                    },
                )
            },
            (OptionType::String(st), OptSet::String(s)) => OptionType::String(
                StringType { default: st.default.clone(), value: Some(s.clone()) },
            ),
            _ => self.copy(),
        }
    }

    /// A copy of this kind.
    pub fn copy(&self) -> (r: OptionType)
        ensures
            r@ == self@,
    {
        match self {
            OptionType::Check(c) => OptionType::Check(CheckType { default: c.default, value: c.value }),
            OptionType::Spin(st) => OptionType::Spin(
                SpinType { min: st.min, max: st.max, default: st.default, value: st.value },
            ),
            OptionType::Combo(c) => OptionType::Combo(
                ComboType {
                    default: c.default.clone(),
                    variants: copy_strings(&c.variants),
                    value: copy_opt_string(&c.value),
                },
            ),
            OptionType::String(st) => OptionType::String(
                StringType { default: st.default.clone(), value: copy_opt_string(&st.value) },
            ),
            OptionType::Button => OptionType::Button,
        }
    }

    /// The value handed to the engine for this option, if it has one.
    pub fn resolved(&self) -> (r: Option<OptionValue>)
        ensures
            match r {
                Some(v) => resolved_value(self@) == Some(v@),
                None => resolved_value(self@) is None,
            },
    {
        match self {
            OptionType::Check(CheckType { value: Some(b), .. }) => Some(OptionValue::Check(*b)),
            OptionType::Spin(SpinType { value: Some(n), .. }) => Some(OptionValue::Spin(*n)),
            OptionType::Combo(ComboType { value: Some(s), .. }) => Some(
                OptionValue::StringOrCombo(s.clone()),
            ),
            OptionType::String(StringType { value: Some(s), .. }) => Some(
                OptionValue::StringOrCombo(s.clone()),
            ),
            _ => None,
        }
    }
}

} // verus!
