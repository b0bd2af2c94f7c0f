//! What this crate takes on trust about `indexmap::IndexMap`, the map that
//! keeps its entries in the order in which their keys first came in.
//!
//! What the functions of this file promise is not proved. Each makes one call
//! into `indexmap`, and its contract says what that call does to the pairs
//! the map holds, as the documentation of `indexmap` gives it.
use crate::data_file::ClassData;
use indexmap::IndexMap;
use vstd::prelude::*;

verus! {

/// `indexmap::IndexMap`, carried as an opaque value.
#[verifier::external_type_specification]
#[verifier::external_body]
#[verifier::reject_recursive_types(K)]
#[verifier::reject_recursive_types(V)]
#[verifier::reject_recursive_types(S)]
pub struct ExIndexMap<K, V, S>(IndexMap<K, V, S>);

/// The key-value pairs that a map holds, in the map's own order (the order in
/// which `IndexMap::get_index` numbers them).
pub uninterp spec fn entries(map: IndexMap<String, ClassData>) -> Seq<(String, ClassData)>;

/// Pair `i` has a key that reads `key`, and no pair before it has.
pub open spec fn is_first_with_key(pairs: Seq<(String, ClassData)>, key: Seq<char>, i: int) -> bool {
    &&& 0 <= i < pairs.len()
    &&& pairs[i].0@ == key
    &&& forall|j: int| 0 <= j < i ==> pairs[j].0@ != key
}

/// The position of the pair whose key reads `key`, if there is one.
pub open spec fn key_index(pairs: Seq<(String, ClassData)>, key: Seq<char>) -> Option<int> {
    if exists|i: int| is_first_with_key(pairs, key, i) {
        Some(choose|i: int| is_first_with_key(pairs, key, i))
    } else {
        None
    }
}

/// `IndexMap::new`: a map that holds no pair.
#[verifier::external_body]
pub(crate) fn new_map() -> (map: IndexMap<String, ClassData>)
    ensures
        entries(map) == Seq::<(String, ClassData)>::empty(),
{
    IndexMap::new()
}

/// `IndexMap::len`: the number of pairs in the map.
#[verifier::external_body]
pub(crate) fn len(map: &IndexMap<String, ClassData>) -> (count: usize)
    ensures
        count == entries(*map).len(),
{
    map.len()
}

/// `IndexMap::get_index`: the pair at `index`, or nothing where the map has
/// no such position.
#[verifier::external_body]
pub(crate) fn get_index(
    map: &IndexMap<String, ClassData>,
    index: usize,
) -> (pair: Option<(&String, &ClassData)>)
    ensures
        index < entries(*map).len() ==> pair == Some(
            (&entries(*map)[index as int].0, &entries(*map)[index as int].1),
        ),
        index >= entries(*map).len() ==> pair is None,
{
    map.get_index(index)
}

/// `IndexMap::get_index_mut`: the key at `index` and a mutable borrow of its
/// value. Whatever the borrower leaves in the value is what the map holds at
/// `index` afterwards; nothing else in the map changes. Where the map has no
/// such position it hands out nothing and stays as it is.
#[verifier::external_body]
pub(crate) fn get_index_mut(
    map: &mut IndexMap<String, ClassData>,
    index: usize,
) -> (pair: Option<(&String, &mut ClassData)>)
    ensures
        index < entries(*old(map)).len() ==> match pair {
            Some((key, value)) => {
                &&& *key == entries(*old(map))[index as int].0
                &&& *value == entries(*old(map))[index as int].1
                &&& entries(*final(map)) == entries(*old(map)).update(
                    index as int,
                    (*key, *final(value)),
                )
            },
            None => false,
        },
        index >= entries(*old(map)).len() ==> pair is None && entries(*final(map)) == entries(
            *old(map),
        ),
{
    map.get_index_mut(index)
}

/// `IndexMap::insert`: where the map already has a key that reads like `key`,
/// that key stays in its place and `value` replaces its value, which is handed
/// back. Otherwise the new pair goes behind all others and nothing is handed back.
#[verifier::external_body]
pub(crate) fn insert(
    map: &mut IndexMap<String, ClassData>,
    key: String,
    value: ClassData,
) -> (replaced: Option<ClassData>)
    ensures
        match key_index(entries(*old(map)), key@) {
            Some(i) => {
                &&& entries(*final(map)) == entries(*old(map)).update(
                    i,
                    (entries(*old(map))[i].0, value),
                )
                &&& replaced == Some(entries(*old(map))[i].1)
            },
            None => {
                &&& entries(*final(map)) == entries(*old(map)).push((key, value))
                &&& replaced is None
            },
        },
{
    map.insert(key, value)
}

/// `IndexMap::shift_remove_index`: the pair at `index` leaves the map and is
/// handed back; the pairs behind it move up by one and keep their order. Where
/// the map has no such position nothing changes and nothing is handed back.
#[verifier::external_body]
pub(crate) fn shift_remove_index(
    map: &mut IndexMap<String, ClassData>,
    index: usize,
) -> (removed: Option<(String, ClassData)>)
    ensures
        index < entries(*old(map)).len() ==> {
            &&& removed == Some(entries(*old(map))[index as int])
            &&& entries(*final(map)) == entries(*old(map)).remove(index as int)
        },
        index >= entries(*old(map)).len() ==> {
            &&& removed is None
            &&& entries(*final(map)) == entries(*old(map))
        },
{
    map.shift_remove_index(index)
}

/// `IndexMap::move_index`: the pair at `from` is taken out and put back in at
/// `to`, and the pairs between the two positions shift by one to make room.
/// The call panics on a position that the map does not have.
#[verifier::external_body]
pub(crate) fn move_index(map: &mut IndexMap<String, ClassData>, from: usize, to: usize)
    requires
        from < entries(*old(map)).len(),
        to < entries(*old(map)).len(),
    ensures
        entries(*final(map)) == entries(*old(map)).remove(from as int).insert(
            to as int,
            entries(*old(map))[from as int],
        ),
{
    map.move_index(from, to)
}

} // verus!
