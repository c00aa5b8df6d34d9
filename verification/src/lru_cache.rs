//! The least-recently-used cache of the `lru` crate, with byte strings as keys and sequence numbers
//! as values.
//!
//! The functions of this module are the only places that reach into the cache. Their contracts speak
//! of [`lru_entries`], the entries from the most to the least recently used, and of [`lru_cap`], the
//! number of entries that the cache was made for.

use lru::LruCache;
use vstd::prelude::*;

verus! {

/// Opaque cache of the `lru` crate.
#[verifier::external_type_specification]
#[verifier::external_body]
#[verifier::reject_recursive_types(K)]
#[verifier::reject_recursive_types(V)]
#[verifier::reject_recursive_types(S)]
pub struct ExLruCache<K, V, S>(lru::LruCache<K, V, S>);

/// Opaque hash builder that the `lru` crate uses by default.
#[verifier::external_type_specification]
#[verifier::external_body]
pub struct ExLruDefaultHasher(lru::DefaultHasher);

/// Entries of a cache, the most recently used first.
pub uninterp spec fn lru_entries(cache: LruCache<Vec<u8>, u64>) -> Seq<(Seq<u8>, u64)>;

/// Number of entries that a cache was made for.
pub uninterp spec fn lru_cap(cache: LruCache<Vec<u8>, u64>) -> nat;

/// Whether `key` has an entry.
pub open spec fn has_key(entries: Seq<(Seq<u8>, u64)>, key: Seq<u8>) -> bool {
    exists|i: int| 0 <= i < entries.len() && (#[trigger] entries[i]).0 == key
}

/// `lru::LruCache::new` makes an empty cache for `cap` entries. It allocates a table for them, which
/// panics where the size of that table overflows.
#[verifier::external_body]
pub(crate) fn lru_new(cap: usize) -> (cache: LruCache<Vec<u8>, u64>)
    requires
        0 < cap <= usize::MAX / 256,
    ensures
        lru_entries(cache) == Seq::<(Seq<u8>, u64)>::empty(),
        lru_cap(cache) == cap,
{
    LruCache::new(std::num::NonZeroUsize::new(cap).unwrap())
}

/// `lru::LruCache::peek` finds the value of a key without touching the order of use.
#[verifier::external_body]
pub(crate) fn lru_peek(cache: &LruCache<Vec<u8>, u64>, key: &[u8]) -> (found: Option<u64>)
    ensures
        match found {
            Some(value) => lru_entries(*cache).contains((key@, value)),
            None => !has_key(lru_entries(*cache), key@),
        },
{
    cache.peek(key).copied()
}

/// `lru::LruCache::get` finds the value of a key and makes its entry the most recently used one.
#[verifier::external_body]
pub(crate) fn lru_get(cache: &mut LruCache<Vec<u8>, u64>, key: &[u8]) -> (found: Option<u64>)
    ensures
        lru_cap(*final(cache)) == lru_cap(*old(cache)),
        match found {
            Some(value) => exists|i: int|
                0 <= i < lru_entries(*old(cache)).len() && #[trigger] lru_entries(*old(cache))[i] == (
                    key@,
                    value,
                ) && lru_entries(*final(cache)) == seq![(key@, value)] + lru_entries(
                    *old(cache),
                ).remove(i),
            None => !has_key(lru_entries(*old(cache)), key@) && lru_entries(*final(cache))
                == lru_entries(*old(cache)),
        },
{
    cache.get(key).copied()
}

/// `lru::LruCache::put` makes `(key, value)` the most recently used entry. It takes the place of an
/// earlier entry of the key, whose value is returned; otherwise, in a full cache, the least recently
/// used entry leaves.
#[verifier::external_body]
pub(crate) fn lru_put(cache: &mut LruCache<Vec<u8>, u64>, key: Vec<u8>, value: u64) -> (previous:
    Option<u64>)
    ensures
        lru_cap(*final(cache)) == lru_cap(*old(cache)),
        match previous {
            Some(replaced) => exists|i: int|
                0 <= i < lru_entries(*old(cache)).len() && #[trigger] lru_entries(*old(cache))[i] == (
                    key@,
                    replaced,
                ) && lru_entries(*final(cache)) == seq![(key@, value)] + lru_entries(
                    *old(cache),
                ).remove(i),
            None => !has_key(lru_entries(*old(cache)), key@) && lru_entries(*final(cache)) == seq![
                (key@, value),
            ] + (if lru_entries(*old(cache)).len() == lru_cap(*old(cache)) {
                lru_entries(*old(cache)).drop_last()
            } else {
                lru_entries(*old(cache))
            }),
        },
{
    cache.put(key, value)
}

/// `lru::LruCache::pop` takes the entry of a key out and returns its value.
#[verifier::external_body]
pub(crate) fn lru_pop(cache: &mut LruCache<Vec<u8>, u64>, key: &[u8]) -> (taken: Option<u64>)
    ensures
        lru_cap(*final(cache)) == lru_cap(*old(cache)),
        match taken {
            Some(value) => exists|i: int|
                0 <= i < lru_entries(*old(cache)).len() && #[trigger] lru_entries(*old(cache))[i] == (
                    key@,
                    value,
                ) && lru_entries(*final(cache)) == lru_entries(*old(cache)).remove(i),
            None => !has_key(lru_entries(*old(cache)), key@) && lru_entries(*final(cache))
                == lru_entries(*old(cache)),
        },
{
    cache.pop(key)
}

/// `lru::LruCache::clear` drops every entry.
#[verifier::external_body]
pub(crate) fn lru_clear(cache: &mut LruCache<Vec<u8>, u64>)
    ensures
        lru_cap(*final(cache)) == lru_cap(*old(cache)),
        lru_entries(*final(cache)) == Seq::<(Seq<u8>, u64)>::empty(),
{
    cache.clear()
}

/// `lru::LruCache::len` counts the entries.
#[verifier::external_body]
pub(crate) fn lru_len(cache: &LruCache<Vec<u8>, u64>) -> (count: usize)
    ensures
        count == lru_entries(*cache).len(),
{
    cache.len()
}

} // verus!
