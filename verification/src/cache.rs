//! The fingerprint-keyed byte cache, backed by `moka::sync::Cache`. Entries
//! expire on a time-to-live from insertion and a time-to-idle from last
//! access, and the entry count is bounded; eviction may therefore drop any
//! entry at any mutating step, and the contracts promise only what holds in
//! every such outcome: a returned value is the stored one, stored values are
//! never mutated, and no entry appears out of thin air.

use vstd::prelude::*;
use crate::request::{fp_view, Fingerprint, FpView};

verus! {

#[verifier::external_type_specification]
#[verifier::external_body]
#[verifier::reject_recursive_types(K)]
#[verifier::reject_recursive_types(V)]
#[verifier::reject_recursive_types(S)]
pub struct ExMokaCache<K, V, S>(moka::sync::Cache<K, V, S>);

/// The concrete store behind `FingerprintCache`.
pub type MokaCache = moka::sync::Cache<Fingerprint, Vec<u8>>;

/// The entries a cache currently holds, as a map from fingerprint views to
/// byte sequences.
pub uninterp spec fn cache_contents(c: MokaCache) -> Map<FpView, Seq<u8>>;

/// The entry bound the cache was built with.
pub uninterp spec fn cache_capacity(c: MokaCache) -> u64;

/// Milliseconds in the thousand 365-day years that `moka`'s builder accepts
/// (inclusively) as the largest expiration.
pub const MAX_EXPIRY_MILLIS: u64 = 31_536_000_000_000;

/// Relies on `moka::sync::CacheBuilder`: a newly built cache holds no
/// entries. The builder panics on an expiration beyond a thousand years,
/// hence the bounds.
#[verifier::external_body]
fn moka_new(ttl_millis: u64, tti_millis: u64, capacity: u64) -> (c: MokaCache)
    requires
        ttl_millis <= MAX_EXPIRY_MILLIS,
        tti_millis <= MAX_EXPIRY_MILLIS,
    ensures
        forall|kk: FpView| !(#[trigger] cache_contents(c).contains_key(kk)),
        cache_contents(c).dom().finite(),
        cache_contents(c).len() == 0,
        cache_capacity(c) == capacity,
{
    moka::sync::Cache::builder().time_to_live(
        core::time::Duration::from_millis(ttl_millis),
    ).time_to_idle(core::time::Duration::from_millis(tti_millis)).max_capacity(capacity).build()
}

/// Relies on `moka::sync::Cache::get`: returns a clone of the value stored
/// under the key, if one is present and unexpired; absence aside, it never
/// invents a value.
#[verifier::external_body]
fn moka_get(c: &MokaCache, k: &Fingerprint) -> (r: Option<Vec<u8>>)
    ensures
        r matches Some(v) ==> cache_contents(*c).contains_key(fp_view(*k)) && v@ == cache_contents(
            *c,
        )[fp_view(*k)],
{
    c.get(k)
}

/// Relies on `moka::sync::Cache::insert`: stores the value under the key
/// (replacing any previous value); every other surviving entry keeps its
/// value, and expiration or capacity eviction may drop entries, never add
/// or alter them. A real cache holds finitely many entries, and inserting
/// does not change the bound it was built with.
#[verifier::external_body]
fn moka_insert(c: &mut MokaCache, k: Fingerprint, v: Vec<u8>)
    ensures
        forall|kk: FpView| #[trigger]
            cache_contents(*final(c)).contains_key(kk) ==> if kk == fp_view(k) {
                cache_contents(*final(c))[kk] == v@
            } else {
                cache_contents(*old(c)).contains_key(kk) && cache_contents(*final(c))[kk]
                    == cache_contents(*old(c))[kk]
            },
        cache_contents(*final(c)).dom().finite(),
        cache_capacity(*final(c)) == cache_capacity(*old(c)),
{
    c.insert(k, v);
}

/// Relies on `moka::sync::Cache::run_pending_tasks`: performs the deferred
/// housekeeping (expiration, capacity eviction); it only removes entries,
/// never adds or alters one, and afterwards the entry count is within the
/// bound the cache was built with (`max_capacity`).
#[verifier::external_body]
fn moka_run_pending(c: &mut MokaCache)
    ensures
        forall|kk: FpView| #[trigger]
            cache_contents(*final(c)).contains_key(kk) ==> cache_contents(
                *old(c),
            ).contains_key(kk) && cache_contents(*final(c))[kk] == cache_contents(*old(c))[kk],
        cache_contents(*final(c)).dom().finite(),
        cache_contents(*final(c)).len() <= cache_capacity(*old(c)),
        cache_capacity(*final(c)) == cache_capacity(*old(c)),
{
    c.run_pending_tasks();
}

/// Time-to-live of a cache entry: one hour from insertion.
pub const TTL_MILLIS: u64 = 3_600_000;

/// Time-to-idle of a cache entry: thirty minutes from last access.
pub const TTI_MILLIS: u64 = 1_800_000;

/// Bound on the number of cached entries.
pub const MAX_ENTRIES: u64 = 1000;

/// The cache of encoded render outputs, keyed by request fingerprint.
/// One instance is built at process start and shared for the process's
/// lifetime.
pub struct FingerprintCache {
    inner: MokaCache,
}

impl FingerprintCache {
    /// The entries this cache currently holds.
    pub closed spec fn contents(self) -> Map<FpView, Seq<u8>> {
        cache_contents(self.inner)
    }

    /// The entry bound this cache was built with.
    pub closed spec fn capacity(self) -> u64 {
        cache_capacity(self.inner)
    }

    /// Builds an empty cache with the given expirations (in milliseconds)
    /// and entry bound.
    pub fn with_policy(ttl_millis: u64, tti_millis: u64, capacity: u64) -> (r: FingerprintCache)
        requires
            ttl_millis <= MAX_EXPIRY_MILLIS,
            tti_millis <= MAX_EXPIRY_MILLIS,
        ensures
            forall|kk: FpView| !(#[trigger] r.contents().contains_key(kk)),
            r.contents().dom().finite(),
            r.contents().len() == 0,
            r.capacity() == capacity,
    {
        FingerprintCache { inner: moka_new(ttl_millis, tti_millis, capacity) }
    }

    /// Builds an empty cache with the service's policy: one hour to live,
    /// thirty minutes to idle, at most a thousand entries.
    pub fn new() -> (r: FingerprintCache)
        ensures
            forall|kk: FpView| !(#[trigger] r.contents().contains_key(kk)),
            r.contents().dom().finite(),
            r.contents().len() == 0,
            r.capacity() == MAX_ENTRIES,
    {
        FingerprintCache { inner: moka_new(TTL_MILLIS, TTI_MILLIS, MAX_ENTRIES) }
    }

    /// Non-blocking read: `Some` is always the bytes stored under this
    /// fingerprint; an expired or absent entry gives `None`.
    pub fn lookup(&self, fp: &Fingerprint) -> (r: Option<Vec<u8>>)
        ensures
            r matches Some(v) ==> self.contents().contains_key(fp_view(*fp)) && v@
                == self.contents()[fp_view(*fp)],
    {
        moka_get(&self.inner, fp)
    }

    /// Stores bytes under a fingerprint, replacing any previous entry and
    /// resetting its idle timer. Afterwards every entry holds either these
    /// bytes (under this fingerprint) or its unchanged prior value; eviction
    /// may have dropped entries, never altered one.
    pub fn insert(&mut self, fp: Fingerprint, bytes: Vec<u8>)
        ensures
            forall|kk: FpView| #[trigger]
                final(self).contents().contains_key(kk) ==> if kk == fp_view(fp) {
                    final(self).contents()[kk] == bytes@
                } else {
                    old(self).contents().contains_key(kk) && final(self).contents()[kk] == old(
                        self,
                    ).contents()[kk]
                },
            final(self).contents().dom().finite(),
            final(self).capacity() == old(self).capacity(),
    {
        moka_insert(&mut self.inner, fp, bytes)
    }

    /// Runs the deferred housekeeping now, so that expired entries and any
    /// excess over the entry bound are dropped: afterwards the cache holds
    /// at most `capacity()` entries, and surviving entries keep their
    /// values.
    pub fn run_pending_tasks(&mut self)
        ensures
            forall|kk: FpView| #[trigger]
                final(self).contents().contains_key(kk) ==> old(self).contents().contains_key(kk)
                    && final(self).contents()[kk] == old(self).contents()[kk],
            final(self).contents().dom().finite(),
            final(self).contents().len() <= old(self).capacity(),
            final(self).capacity() == old(self).capacity(),
    {
        moka_run_pending(&mut self.inner)
    }
}

} // verus!
