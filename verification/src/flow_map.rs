//! A concurrent hash map from flow keys to slot numbers, backed by
//! `dashmap::DashMap`. Verified code sees the map only through the
//! functions below, whose contracts are stated over `entries`.

use dashmap::DashMap;
use vstd::prelude::*;

verus! {

/// `dashmap::DashMap`, a concurrent hash map. Nothing of its inside is
/// known to the verifier.
#[verifier::external_type_specification]
#[verifier::external_body]
#[verifier::reject_recursive_types(K)]
#[verifier::reject_recursive_types(V)]
#[verifier::reject_recursive_types(S)]
pub struct ExDashMap<K, V, S>(DashMap<K, V, S>);

/// The key/value pairs that a map holds.
pub uninterp spec fn entries(m: DashMap<(u8, u128, u128, u64), u64>) -> Map<
    (u8, u128, u128, u64),
    u64,
>;

/// The map without any pair.
pub open spec fn no_entries() -> Map<(u8, u128, u128, u64), u64> {
    Map::empty()
}

/// `DashMap::new`: a map that holds nothing.
#[verifier::external_body]
pub(crate) fn map_new() -> (m: DashMap<(u8, u128, u128, u64), u64>)
    ensures
        entries(m) == no_entries(),
{
    DashMap::new()
}

/// `DashMap::get`: the value stored under `key`, if there is one. The map
/// is left as it was.
#[verifier::external_body]
pub(crate) fn map_get(m: &DashMap<(u8, u128, u128, u64), u64>, key: (u8, u128, u128, u64)) -> (r:
    Option<u64>)
    ensures
        r == (if entries(*m).contains_key(key) {
            Some(entries(*m)[key])
        } else {
            None
        }),
{
    match m.get(&key) {
        Some(entry) => Some(*entry.value()),
        None => None,
    }
}

/// `DashMap::insert`: afterwards `key` maps to `value` and every other key
/// is as before; returns what `key` mapped to before.
#[verifier::external_body]
pub(crate) fn map_insert(
    m: &mut DashMap<(u8, u128, u128, u64), u64>,
    key: (u8, u128, u128, u64),
    value: u64,
) -> (prev: Option<u64>)
    ensures
        entries(*final(m)) == entries(*old(m)).insert(key, value),
        prev == (if entries(*old(m)).contains_key(key) {
            Some(entries(*old(m))[key])
        } else {
            None
        }),
{
    m.insert(key, value)
}

/// `DashMap::remove`: afterwards `key` is absent and every other key is as
/// before.
#[verifier::external_body]
pub(crate) fn map_remove(m: &mut DashMap<(u8, u128, u128, u64), u64>, key: (u8, u128, u128, u64))
    ensures
        entries(*final(m)) == entries(*old(m)).remove(key),
{
    m.remove(&key);
}

/// `DashMap::clear`: afterwards the map holds nothing.
#[verifier::external_body]
pub(crate) fn map_clear(m: &mut DashMap<(u8, u128, u128, u64), u64>)
    ensures
        entries(*final(m)) == no_entries(),
{
    m.clear();
}

/// `DashMap::len`: the number of pairs held.
#[verifier::external_body]
pub(crate) fn map_len(m: &DashMap<(u8, u128, u128, u64), u64>) -> (n: usize)
    requires
        entries(*m).dom().finite(),
    ensures
        n == entries(*m).len(),
{
    m.len()
}

} // verus!
