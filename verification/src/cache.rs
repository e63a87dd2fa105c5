//! The catalog cache: the last list read of each kind (packages,
//! applications, …) per environment, shown at once and refreshed on demand.
use vstd::prelude::*;
use crate::assoc::{collect, get, lemma_get_upsert, spec_collect, spec_get, spec_upsert, upsert};
use crate::text::owned;

verus! {

/// A list as the screens receive it: the items, when they were read, and
/// whether they came from the cache.
#[derive(Clone, Debug, PartialEq, Eq)]
pub struct CachedList<T> {
    pub items: Vec<T>,
    pub cached_at: u64,
    pub from_cache: bool,
}

/// The cache key of a list: `{kind}:{env}`.
pub open spec fn spec_cache_key(kind: Seq<char>, env: Seq<char>) -> Seq<char> {
    kind + ":"@ + env
}

pub fn cache_key(kind: &str, env: &str) -> (k: String)
    ensures
        k@ == spec_cache_key(kind@, env@),
{
    let mut k = owned(kind);
    k.append(":");
    k.append(env);
    k
}

impl<T> CachedList<T> {
    /// A list just read (and stored) at `now`.
    pub fn fresh(items: Vec<T>, now: u64) -> (l: Self)
        ensures
            l.items@ == items@,
            l.cached_at == now,
            !l.from_cache,
    {
        CachedList { items, cached_at: now, from_cache: false }
    }

    /// A list served from the cache, stored at `cached_at`.
    pub fn cached(items: Vec<T>, cached_at: u64) -> (l: Self)
        ensures
            l.items@ == items@,
            l.cached_at == cached_at,
            l.from_cache,
    {
        CachedList { items, cached_at, from_cache: true }
    }
}

/// One stored list: when it was read, and the list itself as JSON text.
pub struct CacheEntry {
    pub cached_at: u64,
    pub value: String,
}

/// The saved lists, by cache key (`{kind}:{env}`).
pub struct CatalogCache {
    entries: Vec<(String, CacheEntry)>,
}

impl CatalogCache {
    pub closed spec fn spec_entries(&self) -> Seq<(String, CacheEntry)> {
        self.entries@
    }

    /// The cache as read from its file; of two entries under one key, the
    /// later is kept.
    pub fn from_entries(list: Vec<(String, CacheEntry)>) -> (c: Self)
        ensures
            c.spec_entries() == spec_collect(list@),
    {
        CatalogCache { entries: collect(list) }
    }

    /// Every saved entry, ordered by key (what the cache file holds).
    pub fn entries(&self) -> (r: &Vec<(String, CacheEntry)>)
        ensures
            r@ == self.spec_entries(),
    {
        &self.entries
    }

    /// The saved list of `kind` for `env`, if there is one.
    pub fn get(&self, kind: &str, env: &str) -> (r: Option<&CacheEntry>)
        ensures
            match r {
                Some(e) => spec_get(self.spec_entries(), spec_cache_key(kind@, env@)) == Some(*e),
                None => spec_get(self.spec_entries(), spec_cache_key(kind@, env@)) is None,
            },
    {
        let key = cache_key(kind, env);
        get(&self.entries, key.as_str())
    }

    /// Save a list just read at `cached_at`, replacing the saved one.
    pub fn put(&mut self, kind: &str, env: &str, value: String, cached_at: u64)
        ensures
            forall|q: Seq<char>|
                #[trigger] spec_get(final(self).spec_entries(), q) == if q == spec_cache_key(kind@, env@) {
                    Some(CacheEntry { cached_at, value })
                } else {
                    spec_get(old(self).spec_entries(), q)
                },
    {
        let key = cache_key(kind, env);
        let ghost k = key;
        let ghost e = CacheEntry { cached_at, value };
        let ghost before = self.entries@;
        upsert(&mut self.entries, key, CacheEntry { cached_at, value });
        proof {
            assert forall|q: Seq<char>|
                #[trigger] spec_get(self.entries@, q) == if q == k@ {
                    Some(e)
                } else {
                    spec_get(before, q)
                } by {
                lemma_refresh_replaces(before, k, e, q);
            }
        }
    }
}

/// A refresh replaces the saved entry: after a list is stored under a key,
/// reading that key gives exactly what was stored, and every other key reads
/// as before.
pub proof fn lemma_refresh_replaces(m: Seq<(String, CacheEntry)>, k: String, e: CacheEntry, q: Seq<char>)
    ensures
        spec_get(spec_upsert(m, k, e), k@) == Some(e),
        q != k@ ==> spec_get(spec_upsert(m, k, e), q) == spec_get(m, q),
{
    lemma_get_upsert(m, k, e, k@);
    lemma_get_upsert(m, k, e, q);
}

} // verus!
