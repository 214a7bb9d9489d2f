use vstd::prelude::*;

use std::collections::hash_map::RandomState;

use crate::assoc::{distinct_elems, set_of};
use crate::strset::str_v;

verus! {

#[verifier::external_type_specification]
#[verifier::external_body]
#[verifier::reject_recursive_types(K)]
#[verifier::reject_recursive_types(S)]
pub struct ExDashSet<K, S>(dashmap::DashSet<K, S>);

#[verifier::external_type_specification]
#[verifier::external_body]
#[verifier::reject_recursive_types(K)]
#[verifier::reject_recursive_types(V)]
#[verifier::reject_recursive_types(S)]
pub struct ExDashMap<K, V, S>(dashmap::DashMap<K, V, S>);

/// A concurrent set of identifier strings, as the store shares with the
/// protocol task.
pub type SharedStrSet = dashmap::DashSet<String, RandomState>;

/// A concurrent directory-count map.
pub type SharedCountMap = dashmap::DashMap<String, u32, RandomState>;

/// The strings a concurrent identifier set holds, as a set of abstract
/// strings.
pub uninterp spec fn dashset_strings(s: &SharedStrSet) -> Set<Seq<char>>;

/// The entries a concurrent directory map holds, as a map from abstract
/// strings to counts.
pub uninterp spec fn dashmap_counts(m: &SharedCountMap) -> Map<Seq<char>, u32>;

/// Relies on dashmap::DashSet::new: creates an empty set.
#[verifier::external_body]
pub(crate) fn ds_new() -> (s: SharedStrSet)
    ensures
        dashset_strings(&s) == Set::<Seq<char>>::empty(),
{
    dashmap::DashSet::new()
}

/// Relies on dashmap::DashSet::insert: adds the key, and reports whether it
/// was not already in the set.
#[verifier::external_body]
pub(crate) fn ds_insert(s: &mut SharedStrSet, x: String) -> (r: bool)
    ensures
        dashset_strings(final(s)) == dashset_strings(old(s)).insert(x@),
        r == !dashset_strings(old(s)).contains(x@),
{
    s.insert(x)
}

/// Relies on dashmap::DashSet::remove: takes the key out, handing it back
/// when it was there.
#[verifier::external_body]
pub(crate) fn ds_remove(s: &mut SharedStrSet, x: &String) -> (r: Option<String>)
    ensures
        dashset_strings(final(s)) == dashset_strings(old(s)).remove(x@),
        match r {
            Option::Some(k) => dashset_strings(old(s)).contains(x@) && k@ == x@,
            Option::None => !dashset_strings(old(s)).contains(x@),
        },
{
    s.remove(x)
}

/// Relies on dashmap::DashSet::clear: removes every entry.
#[verifier::external_body]
pub(crate) fn ds_clear(s: &mut SharedStrSet)
    ensures
        dashset_strings(final(s)) == Set::<Seq<char>>::empty(),
{
    s.clear()
}

/// Relies on dashmap::DashSet::iter: visits each held string exactly once.
#[verifier::external_body]
pub(crate) fn ds_items(s: &SharedStrSet) -> (r: Vec<String>)
    ensures
        set_of(r@, str_v()) == dashset_strings(s),
        distinct_elems(r@, str_v()),
{
    s.iter().map(|x| x.key().clone()).collect()
}

/// The empty directory: no channel has a count yet.
pub open spec fn no_counts() -> Map<Seq<char>, u32> {
    Map::empty()
}

/// Relies on dashmap::DashMap::new: creates an empty map.
#[verifier::external_body]
pub(crate) fn dm_new() -> (m: SharedCountMap)
    ensures
        dashmap_counts(&m) == no_counts(),
{
    dashmap::DashMap::new()
}

/// Relies on dashmap::DashMap::insert: stores the value under the key and
/// hands back the value that was there before, if any.
#[verifier::external_body]
pub(crate) fn dm_insert(m: &mut SharedCountMap, k: String, v: u32) -> (r: Option<u32>)
    ensures
        dashmap_counts(final(m)) == dashmap_counts(old(m)).insert(k@, v),
        match r {
            Option::Some(prev) => dashmap_counts(old(m)).contains_key(k@)
                && prev == dashmap_counts(old(m))[k@],
            Option::None => !dashmap_counts(old(m)).contains_key(k@),
        },
{
    m.insert(k, v)
}

} // verus!
