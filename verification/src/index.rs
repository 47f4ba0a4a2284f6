//! The index from an argument's name to the slot that holds its value.

use indexmap::IndexMap;
use vstd::prelude::*;

verus! {

#[verifier::external_type_specification]
#[verifier::external_body]
#[verifier::reject_recursive_types(K)]
#[verifier::reject_recursive_types(V)]
#[verifier::reject_recursive_types(S)]
pub struct ExIndexMap<K, V, S>(IndexMap<K, V, S>);

/// The slot that an index keeps for each name.
pub uninterp spec fn slots(index: IndexMap<String, usize>) -> Map<Seq<char>, usize>;

/// `IndexMap::new`: an index that keeps no name.
#[verifier::external_body]
pub(crate) fn index_new() -> (r: IndexMap<String, usize>)
    ensures
        slots(r) == (Map::<Seq<char>, usize>::empty()),
{
    IndexMap::new()
}

/// `IndexMap::get`: the slot kept for the name, if the index keeps the name.
#[verifier::external_body]
pub(crate) fn index_get(index: &IndexMap<String, usize>, name: &str) -> (r: Option<usize>)
    ensures
        r == (if slots(*index).contains_key(name@) {
            Some(slots(*index)[name@])
        } else {
            None
        }),
{
    index.get(name).copied()
}

/// `IndexMap::insert`: afterwards the index keeps the slot for the name, and
/// for every other name what it kept before.
#[verifier::external_body]
pub(crate) fn index_insert(index: &mut IndexMap<String, usize>, name: String, slot: usize)
    ensures
        slots(*final(index)) == slots(*old(index)).insert(name@, slot),
{
    index.insert(name, slot);
}

/// `IndexMap::clone`: an index that keeps what the given one keeps.
#[verifier::external_body]
pub(crate) fn index_clone(index: &IndexMap<String, usize>) -> (r: IndexMap<String, usize>)
    ensures
        slots(r) == slots(*index),
{
    index.clone()
}

} // verus!
