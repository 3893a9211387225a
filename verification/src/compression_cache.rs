//! The cache of compressed messages: an `lru::LruCache` keyed by the hash of
//! the original bytes, modelled as its entries in recency order, and the
//! hash itself.

use vstd::prelude::*;
use std::hash::BuildHasher;
use lru::LruCache;
use crate::compression::CompressionAlgorithm;

verus! {

/// The LRU cache of the `lru` crate.
#[verifier::external_type_specification]
#[verifier::external_body]
#[verifier::reject_recursive_types(K)]
#[verifier::reject_recursive_types(V)]
#[verifier::reject_recursive_types(S)]
pub struct ExLruCache<K, V, S>(LruCache<K, V, S>);

/// The hasher builder the `lru` crate uses by default.
#[verifier::external_type_specification]
#[verifier::external_body]
pub struct ExLruDefaultHasher(lru::DefaultHasher);

/// A cached compression result.
#[derive(Debug, Clone)]
pub struct CacheEntry {
    /// The hash of the original bytes (the key it is stored under).
    pub original_hash: u64,
    pub compressed: Vec<u8>,
    pub algorithm: CompressionAlgorithm,
}

/// The content of a cache entry.
pub type CacheView = (u64, Seq<u8>, CompressionAlgorithm);

pub open spec fn entry_view(e: CacheEntry) -> CacheView {
    (e.original_hash, e.compressed@, e.algorithm)
}

/// The cache of compressed messages.
pub type CompressionCache = LruCache<u64, CacheEntry>;

/// The (key, entry) pairs a cache holds, most recently used first.
pub uninterp spec fn lru_entries(cache: CompressionCache) -> Seq<(u64, CacheView)>;

/// The number of entries a cache was made to hold.
pub uninterp spec fn lru_capacity(cache: CompressionCache) -> nat;

/// Whether some entry has key `k`.
pub open spec fn has_key(s: Seq<(u64, CacheView)>, k: u64) -> bool {
    exists|i: int| 0 <= i < s.len() && s[i].0 == k
}

/// The position of the entry with key `k`.
pub open spec fn key_index(s: Seq<(u64, CacheView)>, k: u64) -> int {
    choose|i: int| 0 <= i < s.len() && s[i].0 == k
}

/// Keys are distinct and there are at most `cap` of them, `cap` not zero.
pub open spec fn lru_wf(s: Seq<(u64, CacheView)>, cap: nat) -> bool {
    &&& 0 < cap
    &&& s.len() <= cap
    &&& forall|i: int, j: int| 0 <= i < s.len() && 0 <= j < s.len() && i != j ==> s[i].0 != s[j].0
}

/// The entry stored under `k`.
pub open spec fn lru_lookup(s: Seq<(u64, CacheView)>, k: u64) -> Option<CacheView> {
    if has_key(s, k) {
        Some(s[key_index(s, k)].1)
    } else {
        None
    }
}

/// The entries after a lookup of `k`: a present key moves to the front.
pub open spec fn lru_touch(s: Seq<(u64, CacheView)>, k: u64) -> Seq<(u64, CacheView)> {
    if has_key(s, k) {
        seq![s[key_index(s, k)]] + s.remove(key_index(s, k))
    } else {
        s
    }
}

/// The entries after storing `v` under `k`: the pair goes to the front,
/// replacing the entry of a present key, or else evicting the least
/// recently used entry when the cache is full.
pub open spec fn lru_store(s: Seq<(u64, CacheView)>, cap: nat, k: u64, v: CacheView) -> Seq<
    (u64, CacheView),
> {
    if has_key(s, k) {
        seq![(k, v)] + s.remove(key_index(s, k))
    } else if s.len() >= cap {
        seq![(k, v)] + s.drop_last()
    } else {
        seq![(k, v)] + s
    }
}

/// `LruCache::new`: an empty cache of the given capacity (which the crate
/// takes as a `NonZeroUsize`, so zero is excluded).
#[verifier::external_body]
pub(crate) fn lru_new(cap: usize) -> (c: CompressionCache)
    requires
        cap > 0,
    ensures
        lru_entries(c) == Seq::<(u64, CacheView)>::empty(),
        lru_capacity(c) == cap,
{
    LruCache::new(std::num::NonZeroUsize::new(cap).unwrap())
}

/// `LruCache::get`, with the entry cloned out: the entry stored under `key`,
/// which becomes the most recently used.
#[verifier::external_body]
pub(crate) fn lru_get(cache: &mut CompressionCache, key: u64) -> (r: Option<CacheEntry>)
    ensures
        match r {
            Some(e) => lru_lookup(lru_entries(*old(cache)), key) == Some(entry_view(e)),
            None => lru_lookup(lru_entries(*old(cache)), key) is None,
        },
        lru_entries(*final(cache)) == lru_touch(lru_entries(*old(cache)), key),
        lru_capacity(*final(cache)) == lru_capacity(*old(cache)),
        lru_wf(lru_entries(*final(cache)), lru_capacity(*final(cache))),
{
    cache.get(&key).cloned()
}

/// `LruCache::put`: stores `entry` under `key` as the most recently used,
/// evicting the least recently used entry of a full cache when the key is
/// new.
#[verifier::external_body]
pub(crate) fn lru_put(cache: &mut CompressionCache, key: u64, entry: CacheEntry)
    ensures
        lru_entries(*final(cache)) == lru_store(
            lru_entries(*old(cache)),
            lru_capacity(*old(cache)),
            key,
            entry_view(entry),
        ),
        lru_capacity(*final(cache)) == lru_capacity(*old(cache)),
        lru_wf(lru_entries(*final(cache)), lru_capacity(*final(cache))),
{
    cache.put(key, entry);
}

/// The standard library's default hash of a byte slice (`DefaultHasher`
/// fed through `Hash for [u8]`).
pub uninterp spec fn default_hash(data: Seq<u8>) -> u64;

/// `BuildHasher::hash_one` with `DefaultHasher::new()`'s builder: the same
/// bytes always give the same hash.
#[verifier::external_body]
pub(crate) fn calculate_hash(data: &[u8]) -> (h: u64)
    ensures
        h == default_hash(data@),
{
    std::hash::BuildHasherDefault::<std::collections::hash_map::DefaultHasher>::default().hash_one(data)
}

/// Every entry after a lookup was an entry before it.
pub proof fn lemma_touch_keeps_entries(s: Seq<(u64, CacheView)>, k: u64)
    ensures
        forall|j: int| 0 <= j < lru_touch(s, k).len() ==> s.contains(#[trigger] lru_touch(s, k)[j]),
{
    let t = lru_touch(s, k);
    if has_key(s, k) {
        let i = key_index(s, k);
        let u = s.remove(i);
        assert(t == seq![s[i]] + u);
        assert forall|j: int| 0 <= j < t.len() implies s.contains(#[trigger] lru_touch(s, k)[j]) by {
            if j == 0 {
                assert(t[j] == s[i]);
            } else if j - 1 < i {
                assert(t[j] == u[j - 1]);
                assert(u[j - 1] == s[j - 1]);
            } else {
                assert(t[j] == u[j - 1]);
                assert(u[j - 1] == s[j]);
            }
        }
    } else {
        assert forall|j: int| 0 <= j < t.len() implies s.contains(#[trigger] lru_touch(s, k)[j]) by {
            assert(t[j] == s[j]);
        }
    }
}

/// Every entry after a store is the stored pair or was an entry before it.
pub proof fn lemma_store_keeps_entries(s: Seq<(u64, CacheView)>, cap: nat, k: u64, v: CacheView)
    requires
        lru_wf(s, cap),
    ensures
        forall|j: int|
            0 <= j < lru_store(s, cap, k, v).len() ==> #[trigger] lru_store(s, cap, k, v)[j] == (k, v)
                || s.contains(lru_store(s, cap, k, v)[j]),
{
    let t = lru_store(s, cap, k, v);
    let u = if has_key(s, k) {
        s.remove(key_index(s, k))
    } else if s.len() >= cap {
        s.drop_last()
    } else {
        s
    };
    assert(t == seq![(k, v)] + u);
    assert forall|j: int| 0 <= j < t.len() implies #[trigger] t[j] == (k, v) || s.contains(t[j]) by {
        if j > 0 {
            assert(t[j] == u[j - 1]);
            if has_key(s, k) {
                let i = key_index(s, k);
                if j - 1 < i {
                    assert(u[j - 1] == s[j - 1]);
                } else {
                    assert(u[j - 1] == s[j]);
                }
            } else {
                assert(u[j - 1] == s[j - 1]);
            }
        }
    }
}

} // verus!
