//! The expiring cache of built manifests, kept in an
//! `lru_time_cache::LruCache` keyed by repository identifier.

use crate::manifest::{release_view, Manifest, ManifestView};
use lru_time_cache::LruCache;
use std::time::Duration;
use vstd::prelude::*;
use vstd::string::*;

verus! {

/// Declares `lru_time_cache::LruCache`, whose inside stays hidden: what a
/// cache holds is spoken of through [`stored`] and [`lifetime_secs`].
#[verifier::external_type_specification]
#[verifier::external_body]
#[verifier::reject_recursive_types(Key)]
#[verifier::reject_recursive_types(Value)]
pub struct ExLruCache<Key, Value>(LruCache<Key, Value>);

/// What the cache's map holds: for each key the view of the value stored
/// under it, whether or not its time has run out.
pub uninterp spec fn stored(c: LruCache<String, Option<Manifest>>) -> Map<
    Seq<char>,
    Option<ManifestView>,
>;

/// The time to live that the cache was made with, in seconds.
pub uninterp spec fn lifetime_secs(c: LruCache<String, Option<Manifest>>) -> nat;

/// The cache that holds nothing.
pub open spec fn no_entries() -> Map<Seq<char>, Option<ManifestView>> {
    Map::empty()
}

/// The longest time to live that a cache can be made with, in seconds. An
/// expiry instant this far ahead of the clock can still be represented.
pub const MAX_TTL_SECS: u64 = 4_294_967_295;

/// Calls `LruCache::with_expiry_duration` with a duration of `ttl` seconds.
/// Trusted: the new cache holds nothing and keeps the given time to live.
#[verifier::external_body]
fn store_new(ttl: u64) -> (c: LruCache<String, Option<Manifest>>)
    ensures
        stored(c) == no_entries(),
        lifetime_secs(c) == ttl,
{
    LruCache::with_expiry_duration(Duration::from_secs(ttl))
}

/// Calls `LruCache::peek` and copies what it finds. Trusted: a value that is
/// handed out is the one stored under the key. Whether a stored value is
/// handed out depends on the clock, so nothing is claimed of a miss. The
/// bound on the time to live keeps the addition of instant and duration,
/// which `peek` makes, from overflowing.
#[verifier::external_body]
fn store_peek(c: &LruCache<String, Option<Manifest>>, key: &str) -> (r: Option<Option<Manifest>>)
    requires
        lifetime_secs(*c) <= MAX_TTL_SECS,
    ensures
        r.is_some() ==> stored(*c).contains_key(key@) && stored(*c)[key@] == release_view(
            r.unwrap(),
        ),
{
    c.peek(key).cloned()
}

/// Calls `LruCache::insert`. Trusted: afterwards the key holds the new value,
/// every other entry that is still there is unchanged (entries whose time has
/// run out are removed on the way), and the time to live is as before.
#[verifier::external_body]
fn store_insert(c: &mut LruCache<String, Option<Manifest>>, key: String, value: Option<Manifest>)
    requires
        lifetime_secs(*old(c)) <= MAX_TTL_SECS,
    ensures
        lifetime_secs(*final(c)) == lifetime_secs(*old(c)),
        stored(*final(c)).contains_key(key@),
        stored(*final(c))[key@] == release_view(value),
        forall|k: Seq<char>|
            k != key@ && #[trigger] stored(*final(c)).contains_key(k) ==> stored(
                *old(c),
            ).contains_key(k) && stored(*final(c))[k] == stored(*old(c))[k],
{
    let _ = c.insert(key, value);
}

/// The cache of the latest release of each repository. A stored `None` marks
/// a build that failed, so that a broken upstream is not asked again before
/// the entry's time has run out.
pub struct ReleaseCache {
    store: LruCache<String, Option<Manifest>>,
}

impl ReleaseCache {
    /// The entries of the cache, stale ones included until they are removed.
    pub closed spec fn entries(&self) -> Map<Seq<char>, Option<ManifestView>> {
        stored(self.store)
    }

    /// The cache's time to live, in seconds.
    pub closed spec fn ttl(&self) -> nat {
        lifetime_secs(self.store)
    }

    /// The time to live is one that a cache can be made with.
    pub open spec fn wf(&self) -> bool {
        self.ttl() <= MAX_TTL_SECS
    }

    /// The value stored under `key`, where there is one whose time has not
    /// run out; `None` is a miss. The cache itself is left as it is.
    pub fn get(&self, key: &str) -> (r: Option<Option<Manifest>>)
        requires
            self.wf(),
        ensures
            r.is_some() ==> self.entries().contains_key(key@) && self.entries()[key@]
                == release_view(r.unwrap()),
    {
        store_peek(&self.store, key)
    }

    /// Stores `value` under `key`, in place of what was there. No other entry
    /// changes, but stale ones may be dropped.
    pub fn put(&mut self, key: &str, value: Option<Manifest>)
        requires
            old(self).wf(),
        ensures
            final(self).wf(),
            final(self).ttl() == old(self).ttl(),
            final(self).entries().contains_key(key@),
            final(self).entries()[key@] == release_view(value),
            forall|k: Seq<char>|
                k != key@ && #[trigger] final(self).entries().contains_key(k) ==> old(
                    self,
                ).entries().contains_key(k) && final(self).entries()[k] == old(self).entries()[k],
    {
        store_insert(&mut self.store, String::from_str(key), value);
    }
}

/// An empty cache whose entries live for `ttl` seconds.
pub fn create_ttl_cache(ttl: u64) -> (c: ReleaseCache)
    requires
        ttl <= MAX_TTL_SECS,
    ensures
        c.wf(),
        c.ttl() == ttl,
        c.entries() == no_entries(),
{
    ReleaseCache { store: store_new(ttl) }
}

} // verus!
