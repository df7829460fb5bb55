//! The insertion-ordered map that holds the counters, and what is assumed of it.
//!
//! The map is `indexmap::IndexMap`, keyed by the small integer code of a kind.
//! Its contents are opaque to the verifier: [`map_entries`] names them, and
//! each function that calls a method of the map states what the method does
//! to them. These statements are taken from the documentation and the source
//! of the map and are believed, not proved. The comparison of two maps at the
//! end of the file, and everything else in the crate, is proved from them.

use indexmap::IndexMap;
use vstd::prelude::*;

verus! {

/// `indexmap::IndexMap`, made known to the verifier as a type whose values
/// it cannot look into.
#[verifier::external_type_specification]
#[verifier::external_body]
#[verifier::reject_recursive_types(K)]
#[verifier::reject_recursive_types(V)]
#[verifier::reject_recursive_types(S)]
pub struct ExIndexMap<K, V, S>(IndexMap<K, V, S>);

/// The key-value pairs of the map, in their order.
pub uninterp spec fn map_entries(m: IndexMap<u8, u64>) -> Seq<(u8, u64)>;

/// The position at which `entries` holds `key`, if it holds it.
pub open spec fn key_position(entries: Seq<(u8, u64)>, key: u8) -> Option<int> {
    if exists|i: int| 0 <= i < entries.len() && entries[i].0 == key {
        Some(choose|i: int| 0 <= i < entries.len() && entries[i].0 == key)
    } else {
        None
    }
}

/// `IndexMap::new`: a map without entries.
#[verifier::external_body]
pub(crate) fn map_new() -> (m: IndexMap<u8, u64>)
    ensures
        map_entries(m) == Seq::<(u8, u64)>::empty(),
{
    IndexMap::new()
}

/// `IndexMap::clone`: a map with the same entries in the same order.
#[verifier::external_body]
pub(crate) fn map_clone(m: &IndexMap<u8, u64>) -> (copy: IndexMap<u8, u64>)
    ensures
        map_entries(copy) == map_entries(*m),
{
    m.clone()
}

/// `IndexMap::len`: the number of entries.
#[verifier::external_body]
pub(crate) fn map_len(m: &IndexMap<u8, u64>) -> (n: usize)
    ensures
        n == map_entries(*m).len(),
{
    m.len()
}

/// `IndexMap::insert`: a key that the map holds keeps its place and gets the
/// new value, and the value it had is returned; any other key is appended,
/// last in order, and `None` is returned.
#[verifier::external_body]
pub(crate) fn map_insert(m: &mut IndexMap<u8, u64>, key: u8, value: u64) -> (previous: Option<u64>)
    ensures
        match key_position(map_entries(*old(m)), key) {
            Some(i) => {
                &&& map_entries(*final(m)) == map_entries(*old(m)).update(i, (key, value))
                &&& previous == Some(map_entries(*old(m))[i].1)
            },
            None => {
                &&& map_entries(*final(m)) == map_entries(*old(m)).push((key, value))
                &&& previous.is_none()
            },
        },
{
    m.insert(key, value)
}

/// `IndexMap::get`: the value stored for `key`, if the map holds the key.
#[verifier::external_body]
pub(crate) fn map_get(m: &IndexMap<u8, u64>, key: u8) -> (value: Option<u64>)
    ensures
        value == match key_position(map_entries(*m), key) {
            Some(i) => Some(map_entries(*m)[i].1),
            None => None,
        },
{
    m.get(&key).copied()
}

/// `IndexMap::get_index`: the pair at position `index`; `None` from the
/// length on.
#[verifier::external_body]
pub(crate) fn map_get_index(m: &IndexMap<u8, u64>, index: usize) -> (entry: Option<(u8, u64)>)
    ensures
        entry == if index < map_entries(*m).len() {
            Some(map_entries(*m)[index as int])
        } else {
            None
        },
{
    m.get_index(index).map(|(k, v)| (*k, *v))
}

/// `IndexMap::get_index_mut`, used to store `value` at position `index`: the
/// key there and all other pairs stay as they are.
#[verifier::external_body]
pub(crate) fn map_set_index(m: &mut IndexMap<u8, u64>, index: usize, value: u64)
    requires
        index < map_entries(*old(m)).len(),
    ensures
        map_entries(*final(m)) == map_entries(*old(m)).update(
            index as int,
            (map_entries(*old(m))[index as int].0, value),
        ),
{
    if let Some((_, slot)) = m.get_index_mut(index) {
        *slot = value;
    }
}

/// Whether two maps hold the same pairs in the same order.
pub(crate) fn map_same(a: &IndexMap<u8, u64>, b: &IndexMap<u8, u64>) -> (same: bool)
    ensures
        same == (map_entries(*a) == map_entries(*b)),
{
    let len = map_len(a);
    if map_len(b) != len {
        return false;
    }
    let mut i: usize = 0;
    while i < len
        invariant
            i <= len,
            len == map_entries(*a).len(),
            len == map_entries(*b).len(),
            forall|j: int| 0 <= j < i ==> map_entries(*a)[j] == map_entries(*b)[j],
        decreases len - i,
    {
        let left = map_get_index(a, i);
        let right = map_get_index(b, i);
        match (left, right) {
            (Some((left_key, left_value)), Some((right_key, right_value))) => {
                if left_key != right_key || left_value != right_value {
                    assert(map_entries(*a)[i as int] != map_entries(*b)[i as int]);
                    return false;
                }
            },
            _ => {
                return false;
            },
        }
        i += 1;
    }
    assert(map_entries(*a) =~= map_entries(*b));
    true
}

} // verus!
