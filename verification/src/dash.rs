//! The concurrent map of the `dashmap` crate, owned by one holder at a time.
//!
//! The functions of this module are the only places that reach into such a map. Whatever changes a map
//! takes it by `&mut`, so that its contents are those that its holder left in it. The contracts speak
//! of them as a `Map`: [`slots_of`] for maps from numbers to numbers, [`bindings_of`] for connections
//! and their writers, [`limits_of`] for users and their limits.

use dashmap::DashMap;
use vstd::prelude::*;

use crate::transport::middle_proxy::registry::HotConnBinding;

verus! {

/// Opaque map of the `dashmap` crate.
#[verifier::external_type_specification]
#[verifier::external_body]
#[verifier::reject_recursive_types(K)]
#[verifier::reject_recursive_types(V)]
#[verifier::reject_recursive_types(S)]
pub struct ExDashMap<K, V, S>(dashmap::DashMap<K, V, S>);

/// Contents of a map from numbers to numbers.
pub uninterp spec fn slots_of(table: DashMap<u64, u64>) -> Map<u64, u64>;

/// Contents of a map from connections to their bindings.
pub uninterp spec fn bindings_of(table: DashMap<u64, HotConnBinding>) -> Map<u64, HotConnBinding>;

/// Contents of a map from user names to limits.
pub uninterp spec fn limits_of(table: DashMap<String, usize>) -> Map<Seq<char>, usize>;

/// `dashmap::DashMap::new` makes an empty map.
#[verifier::external_body]
pub(crate) fn slots_new() -> (made: DashMap<u64, u64>)
    ensures
        slots_of(made) == (Map::<u64, u64>::empty()),
{
    DashMap::new()
}

/// `dashmap::DashMap::insert` sets the value of a key and returns the value that it replaced.
#[verifier::external_body]
pub(crate) fn slots_insert(table: &mut DashMap<u64, u64>, key: u64, value: u64) -> (previous: Option<u64>)
    ensures
        slots_of(*final(table)) == slots_of(*old(table)).insert(key, value),
        previous == slots_of(*old(table)).get(key),
{
    table.insert(key, value)
}

/// `dashmap::DashMap::get` finds the value of a key.
#[verifier::external_body]
pub(crate) fn slots_get(table: &DashMap<u64, u64>, key: u64) -> (found: Option<u64>)
    ensures
        found == slots_of(*table).get(key),
{
    table.get(&key).map(|entry| *entry.value())
}

/// `dashmap::DashMap::contains_key` tells whether a key has a value.
#[verifier::external_body]
pub(crate) fn slots_contains(table: &DashMap<u64, u64>, key: u64) -> (found: bool)
    ensures
        found == slots_of(*table).contains_key(key),
{
    table.contains_key(&key)
}

/// `dashmap::DashMap::remove` takes a key out and returns its value.
#[verifier::external_body]
pub(crate) fn slots_remove(table: &mut DashMap<u64, u64>, key: u64) -> (taken: Option<u64>)
    ensures
        slots_of(*final(table)) == slots_of(*old(table)).remove(key),
        taken == slots_of(*old(table)).get(key),
{
    table.remove(&key).map(|pair| pair.1)
}

/// `dashmap::DashMap::len` counts the keys.
#[verifier::external_body]
pub(crate) fn slots_len(table: &DashMap<u64, u64>) -> (count: usize)
    ensures
        count == slots_of(*table).len(),
{
    table.len()
}

/// `dashmap::DashMap::clear` takes every key out.
#[verifier::external_body]
pub(crate) fn slots_clear(table: &mut DashMap<u64, u64>)
    ensures
        slots_of(*final(table)) == (Map::<u64, u64>::empty()),
{
    table.clear()
}

/// `dashmap::DashMap::iter` hands out every pair once, in no particular order.
#[verifier::external_body]
pub(crate) fn slots_pairs(table: &DashMap<u64, u64>) -> (pairs: Vec<(u64, u64)>)
    ensures
        forall|i: int|
            0 <= i < pairs@.len() ==> slots_of(*table).get((#[trigger] pairs@[i]).0) == Some(pairs@[i].1),
        forall|key: u64| #[trigger]
            slots_of(*table).contains_key(key) ==> exists|i: int|
                0 <= i < pairs@.len() && (#[trigger] pairs@[i]).0 == key,
        forall|i: int, j: int|
            0 <= i < j < pairs@.len() ==> (#[trigger] pairs@[i]).0 != (#[trigger] pairs@[j]).0,
{
    table.iter().map(|entry| (*entry.key(), *entry.value())).collect()
}

/// `dashmap::DashMap::new` makes an empty map of bindings.
#[verifier::external_body]
pub(crate) fn bindings_new() -> (made: DashMap<u64, HotConnBinding>)
    ensures
        bindings_of(made) == (Map::<u64, HotConnBinding>::empty()),
{
    DashMap::new()
}

/// `dashmap::DashMap::insert` binds a connection and returns the binding that it replaced.
#[verifier::external_body]
pub(crate) fn bindings_insert(
    table: &mut DashMap<u64, HotConnBinding>,
    conn_id: u64,
    binding: HotConnBinding,
) -> (previous: Option<HotConnBinding>)
    ensures
        bindings_of(*final(table)) == bindings_of(*old(table)).insert(conn_id, binding),
        previous == bindings_of(*old(table)).get(conn_id),
{
    table.insert(conn_id, binding)
}

/// `dashmap::DashMap::get` finds the binding of a connection.
#[verifier::external_body]
pub(crate) fn bindings_get(table: &DashMap<u64, HotConnBinding>, conn_id: u64) -> (found: Option<
    HotConnBinding,
>)
    ensures
        found == bindings_of(*table).get(conn_id),
{
    table.get(&conn_id).map(|entry| *entry.value())
}

/// `dashmap::DashMap::remove` unbinds a connection and returns its binding.
#[verifier::external_body]
pub(crate) fn bindings_remove(table: &mut DashMap<u64, HotConnBinding>, conn_id: u64) -> (taken: Option<
    HotConnBinding,
>)
    ensures
        bindings_of(*final(table)) == bindings_of(*old(table)).remove(conn_id),
        taken == bindings_of(*old(table)).get(conn_id),
{
    table.remove(&conn_id).map(|pair| pair.1)
}

/// `dashmap::DashMap::new` makes an empty map of limits.
#[verifier::external_body]
pub(crate) fn limits_new() -> (made: DashMap<String, usize>)
    ensures
        limits_of(made) == (Map::<Seq<char>, usize>::empty()),
{
    DashMap::new()
}

/// `dashmap::DashMap::insert` sets the limit of a user and returns the limit that it replaced.
#[verifier::external_body]
pub(crate) fn limits_insert(table: &mut DashMap<String, usize>, user: String, limit: usize) -> (previous:
    Option<usize>)
    ensures
        limits_of(*final(table)) == limits_of(*old(table)).insert(user@, limit),
        previous == limits_of(*old(table)).get(user@),
{
    table.insert(user, limit)
}

/// `dashmap::DashMap::get` finds the limit of a user.
#[verifier::external_body]
pub(crate) fn limits_get(table: &DashMap<String, usize>, user: &str) -> (found: Option<usize>)
    ensures
        found == limits_of(*table).get(user@),
{
    table.get(user).map(|entry| *entry.value())
}

} // verus!
