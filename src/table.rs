//! The ordered maps of options, kept in `indexmap::IndexMap`.
//!
//! Their contents are described as a sequence of (key, value) entries in
//! insertion order; each function here makes one call into `IndexMap`.
use vstd::prelude::*;
use indexmap::IndexMap;
use crate::options::{EngineOption, EngineOptionView, OptSet, OptSetView};

verus! {

/// `indexmap::IndexMap`, an ordered hash map; its contents are described by
/// `option_entries` and `override_entries`.
#[verifier::external_type_specification]
#[verifier::external_body]
#[verifier::reject_recursive_types(K)]
#[verifier::reject_recursive_types(V)]
#[verifier::reject_recursive_types(S)]
pub struct ExIndexMap<K, V, S>(IndexMap<K, V, S>);

/// The entries of a map of declared options, in insertion order.
pub uninterp spec fn option_entries(m: IndexMap<String, EngineOption>) -> Seq<(Seq<char>, EngineOptionView)>;

/// The entries of a map of profile values, in insertion order.
pub uninterp spec fn override_entries(m: IndexMap<String, OptSet>) -> Seq<(Seq<char>, OptSetView)>;

/// The position of the first entry with key `k`, or -1 when there is none.
pub open spec fn key_index<V>(s: Seq<(Seq<char>, V)>, k: Seq<char>) -> int
    decreases s.len(),
{
    if s.len() == 0 {
        -1
    } else if key_index(s.drop_last(), k) >= 0 {
        key_index(s.drop_last(), k)
    } else if s.last().0 == k {
        s.len() - 1
    } else {
        -1
    }
}

/// The entries after inserting `(k, v)`: an entry with key `k` keeps its
/// place and takes the new value; otherwise the pair goes last.
pub open spec fn entries_insert<V>(s: Seq<(Seq<char>, V)>, k: Seq<char>, v: V) -> Seq<(Seq<char>, V)> {
    if key_index(s, k) >= 0 {
        s.update(key_index(s, k), (k, v))
    } else {
        s.push((k, v))
    }
}

pub proof fn lemma_key_index_bounds<V>(s: Seq<(Seq<char>, V)>, k: Seq<char>)
    ensures
        -1 <= key_index(s, k) < s.len(),
        key_index(s, k) >= 0 ==> s[key_index(s, k)].0 == k,
        key_index(s, k) < 0 ==> forall|i: int| 0 <= i < s.len() ==> s[i].0 != k,
    decreases s.len(),
{
    if s.len() > 0 {
        lemma_key_index_bounds(s.drop_last(), k);
        if key_index(s.drop_last(), k) < 0 && s.last().0 != k {
            assert forall|i: int| 0 <= i < s.len() implies s[i].0 != k by {
                if i < s.len() - 1 {
                    assert(s[i] == s.drop_last()[i]);
                }
            }
        }
    }
}

/// Relies on `IndexMap::new`: a new map is empty.
#[verifier::external_body]
pub(crate) fn new_option_table() -> (r: IndexMap<String, EngineOption>)
    ensures
        option_entries(r) == Seq::<(Seq<char>, EngineOptionView)>::empty(),
{
    IndexMap::new()
}

/// Relies on `IndexMap::insert`: an existing key keeps its place and takes
/// the new value; a new key goes last.
#[verifier::external_body]
pub(crate) fn option_table_insert(m: &mut IndexMap<String, EngineOption>, k: String, v: EngineOption)
    ensures
        option_entries(*final(m)) == entries_insert(option_entries(*old(m)), k@, v@),
{
    m.insert(k, v);
}

/// Relies on `IndexMap::len`: the number of entries.
#[verifier::external_body]
pub(crate) fn option_table_len(m: &IndexMap<String, EngineOption>) -> (r: usize)
    ensures
        r == option_entries(*m).len(),
{
    m.len()
}

/// Relies on `IndexMap::get_index`: the entry at a position, if there is one.
#[verifier::external_body]
pub(crate) fn option_table_entry(m: &IndexMap<String, EngineOption>, i: usize) -> (r: Option<(&String,&EngineOption)>)
    ensures
        r is Some <==> i < option_entries(*m).len(),
        r is Some ==> (r->0).0@ == option_entries(*m)[i as int].0 && (r->0).1@ == option_entries(*m)[i as int].1,
{
    m.get_index(i)
}

/// Relies on `IndexMap::get_index_of`: the position of the entry with a key.
#[verifier::external_body]
pub(crate) fn option_table_position(m: &IndexMap<String, EngineOption>, k: &str) -> (r: Option<usize>)
    ensures
        r is Some <==> key_index(option_entries(*m), k@) >= 0,
        r is Some ==> r->0 as int == key_index(option_entries(*m), k@),
{
    m.get_index_of(k)
}

/// Relies on `IndexMap::len`: the number of entries.
#[verifier::external_body]
pub(crate) fn override_count(m: &IndexMap<String, OptSet>) -> (r: usize)
    ensures
        r == override_entries(*m).len(),
{
    m.len()
}

/// Relies on `IndexMap::get_index`: the entry at a position, if there is one.
#[verifier::external_body]
pub(crate) fn override_entry(m: &IndexMap<String, OptSet>, i: usize) -> (r: Option<(&String,&OptSet)>)
    ensures
        r is Some <==> i < override_entries(*m).len(),
        r is Some ==> (r->0).0@ == override_entries(*m)[i as int].0 && (r->0).1@ == override_entries(*m)[i as int].1,
{
    m.get_index(i)
}

} // verus!
