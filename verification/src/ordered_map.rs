//! The insertion-ordered map of the `indexmap` crate, as the library uses it:
//! from region names to declarations.
//!
//! The contracts here are taken on trust from that crate's documentation;
//! nothing in this library proves them.

use crate::instruction::{Declaration, DeclarationView};
use indexmap::IndexMap;
use vstd::prelude::*;

verus! {

#[verifier::external_type_specification]
#[verifier::external_body]
#[verifier::reject_recursive_types(K)]
#[verifier::reject_recursive_types(V)]
#[verifier::reject_recursive_types(S)]
pub struct ExIndexMap<K, V, S>(IndexMap<K, V, S>);

/// The entries of a map, key and value, in the order in which the map walks
/// them.
pub uninterp spec fn index_map_entries(map: IndexMap<String, Declaration>) -> Seq<
    (Seq<char>, DeclarationView),
>;

/// Whether some entry has the key.
pub open spec fn has_key(entries: Seq<(Seq<char>, DeclarationView)>, key: Seq<char>) -> bool {
    exists|i: int| 0 <= i < entries.len() && (#[trigger] entries[i]).0 == key
}

/// Calls `IndexMap::new`.
///
/// Trusted: the new map has no entries.
#[verifier::external_body]
pub(crate) fn index_map_new() -> (map: IndexMap<String, Declaration>)
    ensures
        index_map_entries(map) == Seq::<(Seq<char>, DeclarationView)>::empty(),
{
    IndexMap::new()
}

/// Calls `IndexMap::insert`.
///
/// Trusted: where no entry has an equal key, the pair becomes the last entry
/// and nothing is returned; where one has, that entry keeps its place and its
/// key, takes the new value, and the old value is returned. Two `String` keys
/// are equal when they hold the same characters.
#[verifier::external_body]
pub(crate) fn index_map_insert(
    map: &mut IndexMap<String, Declaration>,
    key: String,
    value: Declaration,
) -> (r: Option<Declaration>)
    ensures
        !has_key(index_map_entries(*old(map)), key@) ==> {
            &&& r is None
            &&& index_map_entries(*final(map)) == index_map_entries(*old(map)).push(
                (key@, value@),
            )
        },
        has_key(index_map_entries(*old(map)), key@) ==> {
            &&& r is Some
            &&& exists|i: int|
                {
                    &&& 0 <= i < index_map_entries(*old(map)).len()
                    &&& (#[trigger] index_map_entries(*old(map))[i]).0 == key@
                    &&& r->Some_0@ == index_map_entries(*old(map))[i].1
                    &&& index_map_entries(*final(map)) == index_map_entries(*old(map)).update(
                        i,
                        (key@, value@),
                    )
                }
        },
{
    map.insert(key, value)
}

} // verus!
