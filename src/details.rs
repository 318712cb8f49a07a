//! What an engine tells about itself during the handshake, and the
//! negotiation of its options against a profile.
use vstd::prelude::*;
use indexmap::IndexMap;
use std::collections::VecDeque;
use crate::codec::{GuiCommand, GuiCommandView};
use crate::incoming::{EngineMessage, IdString};
use crate::options::{EngineOption, EngineOptionView, OptSetView, overridden, resolved_value};
use crate::profile::EngineProfile;
use crate::table::{
    entries_insert, key_index, lemma_key_index_bounds, new_option_table, option_entries,
    option_table_entry, option_table_insert, option_table_len, option_table_position,
    override_count, override_entries, override_entry,
};

verus! {

/// The identity and options that an engine declared.
pub struct EngineDetails {
    pub name: String,
    pub author: String,
    pub options: IndexMap<String, EngineOption>,
}

pub struct DetailsView {
    pub name: Seq<char>,
    pub author: Seq<char>,
    pub options: Seq<(Seq<char>, EngineOptionView)>,
}

impl View for EngineDetails {
    type V = DetailsView;

    open spec fn view(&self) -> DetailsView {
        DetailsView { name: self.name@, author: self.author@, options: option_entries(self.options) }
    }
}

/// The details gathered from a run of messages: the last name and author
/// reported, and every declared option by name, in order of first declaration.
pub open spec fn gathered(msgs: Seq<EngineMessage>) -> DetailsView
    decreases msgs.len(),
{
    if msgs.len() == 0 {
        DetailsView { name: Seq::empty(), author: Seq::empty(), options: Seq::empty() }
    } else {
        let d = gathered(msgs.drop_last());
        match msgs.last() {
            EngineMessage::Id(IdString::Name(s)) => DetailsView { name: s@, ..d },
            EngineMessage::Id(IdString::Author(s)) => DetailsView { author: s@, ..d },
            EngineMessage::Option(o) => DetailsView {
                options: entries_insert(d.options, o.name@, o@),
                ..d
            },
            _ => d,
        }
    }
}

/// The options after one profile value is applied to the option of that name, if any.
pub open spec fn apply_override_entry(
    o: Seq<(Seq<char>, EngineOptionView)>,
    ov: (Seq<char>, OptSetView),
) -> Seq<(Seq<char>, EngineOptionView)> {
    let p = key_index(o, ov.0);
    if p < 0 {
        o
    } else {
        o.update(
            p,
            (o[p].0, EngineOptionView { option_type: overridden(o[p].1.option_type, ov.1), ..o[p].1 }),
        )
    }
}

/// The options after the profile values are applied in order.
pub open spec fn apply_overrides(
    o: Seq<(Seq<char>, EngineOptionView)>,
    ovs: Seq<(Seq<char>, OptSetView)>,
) -> Seq<(Seq<char>, EngineOptionView)>
    decreases ovs.len(),
{
    if ovs.len() == 0 {
        o
    } else {
        apply_override_entry(apply_overrides(o, ovs.drop_last()), ovs.last())
    }
}

/// The set-option commands for the options that have a value, in order.
pub open spec fn set_option_commands(o: Seq<(Seq<char>, EngineOptionView)>) -> Seq<GuiCommandView>
    decreases o.len(),
{
    if o.len() == 0 {
        Seq::empty()
    } else {
        let prev = set_option_commands(o.drop_last());
        match resolved_value(o.last().1.option_type) {
            Some(v) => prev.push(GuiCommandView::SetOption(o.last().1.name, v)),
            None => prev,
        }
    }
}

/// The views of a sequence of commands.
pub open spec fn command_views(q: Seq<GuiCommand>) -> Seq<GuiCommandView> {
    q.map_values(|c: GuiCommand| c@)
}

impl EngineOption {
    /// A copy of this option.
    pub fn copy(&self) -> (r: EngineOption)
        ensures
            r@ == self@,
    {
        EngineOption { name: self.name.clone(), option_type: self.option_type.copy() }
    }
}

impl EngineDetails {
    /// Gathers the identity and the declared options from the messages of a handshake.
    pub fn new(ingress: &[EngineMessage]) -> (r: Self)
        ensures
            r@ == gathered(ingress@),
    {
        let mut res = EngineDetails {
            name: String::new(),
            author: String::new(),
            options: new_option_table(),
        };
        let mut i: usize = 0;
        assert(ingress@.subrange(0, 0) =~= Seq::<EngineMessage>::empty());
        while i < ingress.len()
            invariant
                i <= ingress@.len(),
                res@ == gathered(ingress@.subrange(0, i as int)),
            decreases ingress.len() - i,
        {
            assert(ingress@.subrange(0, i + 1).drop_last() =~= ingress@.subrange(0, i as int));
            match &ingress[i] {
                EngineMessage::Id(IdString::Name(s)) => res.name = s.clone(),
                EngineMessage::Id(IdString::Author(s)) => res.author = s.clone(),
                EngineMessage::Option(opt) => {
                    option_table_insert(&mut res.options, opt.name.clone(), opt.copy());
                },
                _ => {},
            }
            i = i + 1;
        }
        assert(ingress@.subrange(0, i as int) =~= ingress@);
        res
    }

    /// Applies a profile's option values, when the profile was recorded for
    /// this engine: both name and author must match exactly, or nothing
    /// changes. A value applies only to an option of that name whose kind it
    /// fits (see `overridden`); one that does not is skipped.
    pub fn load_profile(&mut self, prof: &EngineProfile)
        ensures
            final(self).name@ == old(self).name@,
            final(self).author@ == old(self).author@,
            old(self).name@ == prof.engine.name@ && old(self).author@ == prof.engine.author@
                ==> final(self)@.options == apply_overrides(
                old(self)@.options,
                override_entries(prof.options),
            ),
            !(old(self).name@ == prof.engine.name@ && old(self).author@ == prof.engine.author@)
                ==> final(self)@.options == old(self)@.options,
    {
        if self.name != prof.engine.name || self.author != prof.engine.author {
            return;
        }
        let n = override_count(&prof.options);
        let ghost ovs = override_entries(prof.options);
        let mut i: usize = 0;
        assert(ovs.subrange(0, 0) =~= Seq::<(Seq<char>, OptSetView)>::empty());
        while i < n
            invariant
                i <= n,
                n == ovs.len(),
                ovs == override_entries(prof.options),
                self.name@ == old(self).name@,
                self.author@ == old(self).author@,
                self@.options == apply_overrides(old(self)@.options, ovs.subrange(0, i as int)),
            decreases n - i,
        {
            assert(ovs.subrange(0, i + 1).drop_last() =~= ovs.subrange(0, i as int));
            assert(ovs.subrange(0, i + 1).last() == ovs[i as int]);
            let ghost o = self@.options;
            let entry = override_entry(&prof.options, i);
            if let Some((key, value)) = entry {
                let pos = option_table_position(&self.options, key.as_str());
                proof {
                    lemma_key_index_bounds(option_entries(self.options), key@);
                }
                if let Some(p) = pos {
                    let cur = option_table_entry(&self.options, p);
                    if let Some((_, opt)) = cur {
                        let updated = EngineOption {
                            name: opt.name.clone(),
                            option_type: opt.option_type.with_override(value),
                        };
                        option_table_insert(&mut self.options, key.clone(), updated);
                        proof {
                            let q = key_index(o, key@);
                            assert(q == p as int);
                            assert(o[q].0 == key@);
                            assert(opt@ == o[q].1);
                            assert(updated@ == EngineOptionView {
                                option_type: overridden(o[q].1.option_type, ovs[i as int].1),
                                ..o[q].1
                            });
                            assert(self@.options == o.update(q, (key@, updated@)));
                        }
                        assert(self@.options =~= apply_override_entry(o, ovs[i as int]));
                    }
                }
            }
            i = i + 1;
        }
        assert(ovs.subrange(0, i as int) =~= ovs);
    }

    /// The set-option commands that configure the engine: one for each
    /// option with a value, in declaration order; buttons and options
    /// without a value are skipped.
    pub fn set_options(&self) -> (r: VecDeque<GuiCommand>)
        ensures
            command_views(r@) == set_option_commands(self@.options),
    {
        let mut res: VecDeque<GuiCommand> = VecDeque::new();
        let n = option_table_len(&self.options);
        let ghost o = option_entries(self.options);
        let mut i: usize = 0;
        assert(command_views(res@) =~= set_option_commands(o.subrange(0, 0)));
        while i < n
            invariant
                i <= n,
                n == o.len(),
                o == option_entries(self.options),
                command_views(res@) == set_option_commands(o.subrange(0, i as int)),
            decreases n - i,
        {
            assert(o.subrange(0, i + 1).drop_last() =~= o.subrange(0, i as int));
            let entry = option_table_entry(&self.options, i);
            if let Some((_, opt)) = entry {
                let ghost before = res@;
                match opt.option_type.resolved() {
                    Some(v) => {
                        res.push_back(GuiCommand::SetOption(opt.name.clone(), v));
                        assert(command_views(res@) =~= command_views(before).push(res@.last()@));
                    },
                    None => {},
                }
            }
            i = i + 1;
        }
        assert(o.subrange(0, i as int) =~= o);
        res
    }
}

/// A message that tells nothing about the engine (an unrecognized line, or
/// an informational one) leaves the gathered details as they would be
/// without it, wherever it stands among the others.
pub proof fn lemma_ignored_message(a: Seq<EngineMessage>, m: EngineMessage, b: Seq<EngineMessage>)
    requires
        m is Unrecognized || m is Info,
    ensures
        gathered(a + seq![m] + b) == gathered(a + b),
    decreases b.len(),
{
    if b.len() == 0 {
        assert((a + seq![m] + b).drop_last() =~= a);
        assert(a + b =~= a);
    } else {
        lemma_ignored_message(a, m, b.drop_last());
        assert((a + seq![m] + b).drop_last() =~= a + seq![m] + b.drop_last());
        assert((a + b).drop_last() =~= a + b.drop_last());
    }
}

} // verus!
