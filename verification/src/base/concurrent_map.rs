//! The concurrent maps of the library: what they hold, and what their
//! operations do to it.

use vstd::prelude::*;
use dashmap::DashMap;

verus! {

/// `dashmap::DashMap`, as a value that is carried about and handed to the
/// operations below. What it holds is known by the two names that follow.
#[verifier::external_type_specification]
#[verifier::external_body]
#[verifier::reject_recursive_types(K)]
#[verifier::reject_recursive_types(V)]
#[verifier::reject_recursive_types(S)]
pub struct ExDashMap<K, V, S>(DashMap<K, V, S>);

/// The entries of a concurrent map from text to text.
pub uninterp spec fn text_entries(m: DashMap<String, String>) -> Map<Seq<char>, Seq<char>>;

/// The entries of a concurrent map from text to a number.
pub uninterp spec fn bound_entries(m: DashMap<String, u64>) -> Map<Seq<char>, u64>;

/// The text-to-text map without entries.
pub open spec fn no_texts() -> Map<Seq<char>, Seq<char>> {
    Map::empty()
}

/// The text-to-number map without entries.
pub open spec fn no_bounds() -> Map<Seq<char>, u64> {
    Map::empty()
}

/// `DashMap::with_capacity`: the new map is empty. The capacity only sizes
/// the first allocation; it is kept small, so that the allocation is one
/// that succeeds.
#[verifier::external_body]
pub(crate) fn text_map_with_capacity(capacity: usize) -> (out: DashMap<String, String>)
    requires
        capacity <= 1024,
    ensures
        text_entries(out) == no_texts(),
{
    DashMap::with_capacity(capacity)
}

/// `DashMap::get`, with the value copied out of the guard: the value stored
/// under `key`, if there is one.
#[verifier::external_body]
pub(crate) fn text_map_get(m: &DashMap<String, String>, key: &str) -> (r: Option<String>)
    ensures
        r is Some == text_entries(*m).contains_key(key@),
        r is Some ==> r->0@ == text_entries(*m)[key@],
{
    m.get(key).map(|entry| entry.value().clone())
}

/// `DashMap::insert`: afterwards `key` maps to `value`, and every other key
/// is as before.
#[verifier::external_body]
pub(crate) fn text_map_insert(m: &mut DashMap<String, String>, key: String, value: String)
    ensures
        text_entries(*final(m)) == text_entries(*old(m)).insert(key@, value@),
{
    m.insert(key, value);
}

/// `DashMap::with_capacity`: the new map is empty. The capacity is kept
/// small, as for the other map.
#[verifier::external_body]
pub(crate) fn bound_map_with_capacity(capacity: usize) -> (out: DashMap<String, u64>)
    requires
        capacity <= 1024,
    ensures
        bound_entries(out) == no_bounds(),
{
    DashMap::with_capacity(capacity)
}

/// `DashMap::get`, with the value copied out of the guard.
#[verifier::external_body]
pub(crate) fn bound_map_get(m: &DashMap<String, u64>, key: &str) -> (r: Option<u64>)
    ensures
        r is Some == bound_entries(*m).contains_key(key@),
        r is Some ==> r->0 == bound_entries(*m)[key@],
{
    m.get(key).map(|entry| *entry.value())
}

/// `DashMap::insert`: afterwards `key` maps to `value`, and every other key
/// is as before.
#[verifier::external_body]
pub(crate) fn bound_map_insert(m: &mut DashMap<String, u64>, key: String, value: u64)
    ensures
        bound_entries(*final(m)) == bound_entries(*old(m)).insert(key@, value),
{
    m.insert(key, value);
}

/// `DashMap::remove`: afterwards `key` is absent, and every other key is as
/// before.
#[verifier::external_body]
pub(crate) fn text_map_remove(m: &mut DashMap<String, String>, key: &str)
    ensures
        text_entries(*final(m)) == text_entries(*old(m)).remove(key@),
{
    m.remove(key);
}

/// `DashMap::contains_key`: whether a value is stored under `key`.
#[verifier::external_body]
pub(crate) fn text_map_contains(m: &DashMap<String, String>, key: &str) -> (r: bool)
    ensures
        r == text_entries(*m).contains_key(key@),
{
    m.contains_key(key)
}

} // verus!
