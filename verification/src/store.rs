//! The concurrent maps that hold the registry, and what is trusted of them.

use dashmap::DashMap;
use std::collections::HashSet;
use vstd::prelude::*;

verus! {

/// What the registry keeps for one handle: which hook is attached to it and which high-level
/// object wraps it. `hook` and `high` identify the two values for whoever stores them,
/// `hook_type` and `high_type` identify their types.
#[derive(Debug, Clone, Copy, PartialEq, Eq, Structural)]
pub struct ObjectData {
    pub hook_type: u64,
    pub hook: u64,
    pub high_type: u64,
    pub high: u64,
}

#[verifier::external_type_specification]
#[verifier::external_body]
#[verifier::reject_recursive_types(K)]
#[verifier::reject_recursive_types(V)]
#[verifier::reject_recursive_types(S)]
pub struct ExDashMap<K, V, S>(DashMap<K, V, S>);

/// The entries of the map from a handle to its parent.
pub uninterp spec fn owner_entries(map: DashMap<u64, u64>) -> Map<u64, u64>;

/// The entries of the map from a handle to its children.
pub uninterp spec fn owned_entries(map: DashMap<u64, HashSet<u64>>) -> Map<u64, Set<u64>>;

/// The entries of the map from a handle to its data.
pub uninterp spec fn data_entries(map: DashMap<u64, ObjectData>) -> Map<u64, ObjectData>;

/// `DashMap::default`: a map without entries.
#[verifier::external_body]
pub(crate) fn owner_new() -> (r: DashMap<u64, u64>)
    ensures
        owner_entries(r) == (Map::<u64, u64>::empty()),
{
    DashMap::default()
}

/// `DashMap::default`: a map without entries.
#[verifier::external_body]
pub(crate) fn owned_new() -> (r: DashMap<u64, HashSet<u64>>)
    ensures
        owned_entries(r) == (Map::<u64, Set<u64>>::empty()),
{
    DashMap::default()
}

/// `DashMap::default`: a map without entries.
#[verifier::external_body]
pub(crate) fn data_new() -> (r: DashMap<u64, ObjectData>)
    ensures
        data_entries(r) == (Map::<u64, ObjectData>::empty()),
{
    DashMap::default()
}

/// `DashMap::insert`: sets the entry for `key`, whether or not there was one.
#[verifier::external_body]
pub(crate) fn owner_insert(map: &mut DashMap<u64, u64>, key: u64, value: u64)
    ensures
        owner_entries(*final(map)) == owner_entries(*old(map)).insert(key, value),
{
    map.insert(key, value);
}

/// `DashMap::get`: the value for `key`, or `None` if there is no entry.
#[verifier::external_body]
pub(crate) fn owner_get(map: &DashMap<u64, u64>, key: u64) -> (r: Option<u64>)
    ensures
        r == (if owner_entries(*map).contains_key(key) {
            Some(owner_entries(*map)[key])
        } else {
            None
        }),
{
    map.get(&key).map(|v| *v)
}

/// `DashMap::remove`: takes the entry for `key` out, and gives back its value.
#[verifier::external_body]
pub(crate) fn owner_remove(map: &mut DashMap<u64, u64>, key: u64) -> (r: Option<u64>)
    ensures
        owner_entries(*final(map)) == owner_entries(*old(map)).remove(key),
        r == (if owner_entries(*old(map)).contains_key(key) {
            Some(owner_entries(*old(map))[key])
        } else {
            None
        }),
{
    map.remove(&key).map(|e| e.1)
}

/// `DashMap::entry` with `or_default`, then `HashSet::insert`: puts `child` into the set for
/// `parent`, which is created empty if there is none.
#[verifier::external_body]
pub(crate) fn owned_add(map: &mut DashMap<u64, HashSet<u64>>, parent: u64, child: u64)
    ensures
        owned_entries(*final(map)) == owned_entries(*old(map)).insert(
            parent,
            (if owned_entries(*old(map)).contains_key(parent) {
                owned_entries(*old(map))[parent]
            } else {
                Set::empty()
            }).insert(child),
        ),
{
    map.entry(parent).or_default().insert(child);
}

/// `DashMap::get_mut`, then `HashSet::remove`: takes `child` out of the set for `parent`.
#[verifier::external_body]
pub(crate) fn owned_discard(map: &mut DashMap<u64, HashSet<u64>>, parent: u64, child: u64)
    requires
        owned_entries(*old(map)).contains_key(parent),
    ensures
        owned_entries(*final(map)) == owned_entries(*old(map)).insert(
            parent,
            owned_entries(*old(map))[parent].remove(child),
        ),
{
    map.get_mut(&parent).unwrap().remove(&child);
}

/// `DashMap::get`, handing out the members of the set for `parent`: each of them once, in no
/// order that is promised; `None` if there is no entry.
#[verifier::external_body]
pub(crate) fn owned_members(map: &DashMap<u64, HashSet<u64>>, parent: u64) -> (r: Option<Vec<u64>>)
    ensures
        r is Some <==> owned_entries(*map).contains_key(parent),
        r matches Some(v) ==> v@.no_duplicates() && v@.to_set() == owned_entries(*map)[parent],
{
    map.get(&parent).map(|s| s.iter().copied().collect())
}

/// `DashMap::remove`: takes the entry for `key` out, and gives back its set.
#[verifier::external_body]
pub(crate) fn owned_remove(map: &mut DashMap<u64, HashSet<u64>>, key: u64) -> (r: Option<
    HashSet<u64>,
>)
    ensures
        owned_entries(*final(map)) == owned_entries(*old(map)).remove(key),
        r is Some <==> owned_entries(*old(map)).contains_key(key),
        r matches Some(s) ==> s@ == owned_entries(*old(map))[key],
{
    map.remove(&key).map(|e| e.1)
}

/// `DashMap::insert`: sets the entry for `key`, whether or not there was one.
#[verifier::external_body]
pub(crate) fn data_insert(map: &mut DashMap<u64, ObjectData>, key: u64, value: ObjectData)
    ensures
        data_entries(*final(map)) == data_entries(*old(map)).insert(key, value),
{
    map.insert(key, value);
}

/// `DashMap::get`: the value for `key`, or `None` if there is no entry.
#[verifier::external_body]
pub(crate) fn data_get(map: &DashMap<u64, ObjectData>, key: u64) -> (r: Option<ObjectData>)
    ensures
        r == (if data_entries(*map).contains_key(key) {
            Some(data_entries(*map)[key])
        } else {
            None
        }),
{
    map.get(&key).map(|v| *v)
}

/// `DashMap::remove`: takes the entry for `key` out.
#[verifier::external_body]
pub(crate) fn data_remove(map: &mut DashMap<u64, ObjectData>, key: u64)
    ensures
        data_entries(*final(map)) == data_entries(*old(map)).remove(key),
{
    map.remove(&key);
}

} // verus!
