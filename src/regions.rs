use crate::names::names_view;
use indexmap::IndexMap;
use vstd::prelude::*;

verus! {

#[verifier::external_type_specification]
#[verifier::external_body]
#[verifier::reject_recursive_types(K)]
#[verifier::reject_recursive_types(V)]
#[verifier::reject_recursive_types(S)]
pub struct ExIndexMap<K, V, S>(IndexMap<K, V, S>);

/// The entries of a map of lifetime regions, in insertion order: each
/// region's name and the names of the regions it must outlive.
pub uninterp spec fn region_entries(m: IndexMap<String, Vec<String>>) -> Seq<(Seq<char>, Seq<Seq<char>>)>;

/// Relies on `IndexMap::len`: the number of entries.
#[verifier::external_body]
pub(crate) fn region_count(m: &IndexMap<String, Vec<String>>) -> (r: usize)
    ensures
        r == region_entries(*m).len(),
{
    m.len()
}

/// Relies on `IndexMap::get_index`: the entry at position `i` in insertion
/// order, present for every `i` below the length.
#[verifier::external_body]
pub(crate) fn region_at(m: &IndexMap<String, Vec<String>>, i: usize) -> (r: (String, Vec<String>))
    requires
        i < region_entries(*m).len(),
    ensures
        r.0@ == region_entries(*m)[i as int].0,
        names_view(r.1@) == region_entries(*m)[i as int].1,
{
    let (name, bounds) = m.get_index(i).unwrap();
    (name.clone(), bounds.clone())
}

} // verus!
