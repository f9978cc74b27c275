//! The memo of earlier searches: a bounded least-recently-used map from a
//! search's inputs to its results, kept by the `lru` crate.

use vstd::prelude::*;
use lru::LruCache;
use crate::search::scanner::{SearchResult, SearchResultView, result_views};

verus! {

#[verifier::external_type_specification]
#[verifier::external_body]
#[verifier::reject_recursive_types(K)]
#[verifier::reject_recursive_types(V)]
#[verifier::reject_recursive_types(S)]
pub struct ExLruCache<K, V, S>(lru::LruCache<K, V, S>);

#[verifier::external_type_specification]
#[verifier::external_body]
pub struct ExLruHasher(lru::DefaultHasher);

/// What a search is memoized under: the query, the case-sensitivity and
/// regex modes, and the bytes of the searched buffer.
pub type CacheKey = (String, bool, bool, Vec<u8>);

/// The value of a [`CacheKey`].
pub type CacheKeyView = (Seq<char>, bool, bool, Seq<u8>);

/// One memoized search: its key and its results.
pub type CacheEntry = (CacheKeyView, Seq<SearchResultView>);

/// The map that holds the memo.
pub type ResultMap = LruCache<CacheKey, Vec<SearchResult>>;

pub open spec fn key_view(k: CacheKey) -> CacheKeyView {
    (k.0@, k.1, k.2, k.3@)
}

/// The entries of an LRU map, most recently used first.
pub uninterp spec fn lru_entries(c: ResultMap) -> Seq<CacheEntry>;

/// The number of entries an LRU map holds at most.
pub uninterp spec fn lru_capacity(c: ResultMap) -> nat;

pub open spec fn has_key(entries: Seq<CacheEntry>, k: CacheKeyView) -> bool {
    exists|i: int| 0 <= i < entries.len() && (#[trigger] entries[i]).0 == k
}

/// The place of key `k` among `entries`.
pub open spec fn index_of_key(entries: Seq<CacheEntry>, k: CacheKeyView) -> int {
    choose|i: int| 0 <= i < entries.len() && (#[trigger] entries[i]).0 == k
}

pub open spec fn keys_distinct(entries: Seq<CacheEntry>) -> bool {
    forall|i: int, j: int|
        0 <= i < entries.len() && 0 <= j < entries.len() && i != j ==> (#[trigger] entries[i]).0
            != (#[trigger] entries[j]).0
}

/// The entries after a lookup of `k`: a present key moves to the front.
pub open spec fn after_get(entries: Seq<CacheEntry>, k: CacheKeyView) -> Seq<CacheEntry> {
    if has_key(entries, k) {
        let i = index_of_key(entries, k);
        seq![entries[i]] + entries.remove(i)
    } else {
        entries
    }
}

/// The entries after storing `v` under `k`: the pair goes to the front,
/// replacing an entry of the same key, or else pushing out the least
/// recently used entry when the map is full.
pub open spec fn after_put(
    entries: Seq<CacheEntry>,
    capacity: nat,
    k: CacheKeyView,
    v: Seq<SearchResultView>,
) -> Seq<CacheEntry> {
    if has_key(entries, k) {
        seq![(k, v)] + entries.remove(index_of_key(entries, k))
    } else if entries.len() >= capacity {
        seq![(k, v)] + entries.drop_last()
    } else {
        seq![(k, v)] + entries
    }
}

/// What holds of the entries of every LRU map.
pub open spec fn lru_shape(c: ResultMap) -> bool {
    &&& keys_distinct(lru_entries(c))
    &&& lru_entries(c).len() <= lru_capacity(c)
}

// The three wrappers that change the map do not unwind: the `lru` source
// only hashes and compares `String` keys, moves list nodes and clones or
// drops plain values there, none of which panics.

/// Relies on LruCache::new: an empty map of the given capacity, which
/// must not be zero.
#[verifier::external_body]
pub(crate) fn lru_new(capacity: usize) -> (r: ResultMap)
    requires
        capacity > 0,
    ensures
        lru_entries(r) == Seq::<CacheEntry>::empty(),
        lru_capacity(r) == capacity,
{
    LruCache::new(std::num::NonZeroUsize::new(capacity).unwrap())
}

/// Relies on LruCache::get: the value stored under `k`, if any, whose entry
/// then becomes the most recently used; handed out as a copy.
#[verifier::external_body]
pub(crate) fn lru_get(c: &mut ResultMap, k: &CacheKey) -> (r: Option<Vec<SearchResult>>)
    requires
        lru_shape(*old(c)),
    ensures
        lru_shape(*final(c)),
        lru_capacity(*final(c)) == lru_capacity(*old(c)),
        lru_entries(*final(c)) == after_get(lru_entries(*old(c)), key_view(*k)),
        r is Some <==> has_key(lru_entries(*old(c)), key_view(*k)),
        r matches Some(v) ==> result_views(v@) == lru_entries(*old(c))[index_of_key(
            lru_entries(*old(c)),
            key_view(*k),
        )].1,
    no_unwind
{
    c.get(k).cloned()
}

/// Relies on LruCache::put: `v` is stored under `k` as the most recently
/// used entry, replacing the value of an equal key, or else evicting the
/// least recently used entry when the map is full.
#[verifier::external_body]
pub(crate) fn lru_put(c: &mut ResultMap, k: CacheKey, v: Vec<SearchResult>)
    requires
        lru_shape(*old(c)),
    ensures
        lru_shape(*final(c)),
        lru_capacity(*final(c)) == lru_capacity(*old(c)),
        lru_entries(*final(c)) == after_put(
            lru_entries(*old(c)),
            lru_capacity(*old(c)),
            key_view(k),
            result_views(v@),
        ),
    no_unwind
{
    c.put(k, v);
}

/// Relies on LruCache::contains: whether `k` is stored, without touching
/// the order of use.
#[verifier::external_body]
pub(crate) fn lru_contains(c: &ResultMap, k: &CacheKey) -> (r: bool)
    ensures
        r == has_key(lru_entries(*c), key_view(*k)),
{
    c.contains(k)
}

/// Relies on LruCache::len: the number of entries.
#[verifier::external_body]
pub(crate) fn lru_len(c: &ResultMap) -> (r: usize)
    ensures
        r == lru_entries(*c).len(),
{
    c.len()
}

/// Relies on LruCache::clear: every entry is dropped.
#[verifier::external_body]
pub(crate) fn lru_clear(c: &mut ResultMap)
    ensures
        lru_entries(*final(c)) == Seq::<CacheEntry>::empty(),
        lru_capacity(*final(c)) == lru_capacity(*old(c)),
    no_unwind
{
    c.clear()
}

} // verus!
