//! A time-to-live cache around "is the worker running".
//!
//! Scanning the process table is expensive, so an answer is reused while it
//! is younger than [`CACHE_DURATION_MS`]. Times are milliseconds on a
//! monotonic clock that the caller reads.

use vstd::prelude::*;

use crate::fingerprint::check_nanobot_running_impl;

verus! {

/// How long a liveness answer may be reused, in milliseconds.
pub const CACHE_DURATION_MS: u64 = 2000;

/// The age beyond which a status query discards the cached answer, in
/// milliseconds.
pub const STATUS_MAX_AGE_MS: u64 = 1000;

/// The time from `since` to `now`, zero if the clock reads earlier.
pub open spec fn elapsed(since: u64, now: u64) -> nat {
    if now >= since {
        (now - since) as nat
    } else {
        0
    }
}

/// The last liveness answer and when it was taken.
pub struct ProcessCheckCache {
    pub is_running: Option<bool>,
    pub last_update: Option<u64>,
}

/// A cache that holds no answer.
pub open spec fn empty_cache() -> ProcessCheckCache {
    ProcessCheckCache { is_running: None, last_update: None }
}

/// The cache after one invalidation of `c`.
pub open spec fn invalidated(c: ProcessCheckCache) -> ProcessCheckCache {
    ProcessCheckCache { is_running: None, last_update: None }
}

/// The cache after `k` invalidations of `c`.
pub open spec fn invalidated_times(c: ProcessCheckCache, k: nat) -> ProcessCheckCache
    decreases k,
{
    if k == 0 {
        c
    } else {
        invalidated(invalidated_times(c, (k - 1) as nat))
    }
}

impl ProcessCheckCache {
    /// The cache holds an answer that may be reused at `now`.
    pub open spec fn is_fresh(&self, now: u64) -> bool {
        match (self.last_update, self.is_running) {
            (Some(t), Some(_)) => elapsed(t, now) < CACHE_DURATION_MS,
            _ => false,
        }
    }

    /// An empty cache.
    pub fn new() -> (r: Self)
        ensures
            r == empty_cache(),
    {
        ProcessCheckCache { is_running: None, last_update: None }
    }

    /// The cached answer, if it may be reused at `now`.
    pub fn cached(&self, now: u64) -> (r: Option<bool>)
        ensures
            r == (if self.is_fresh(now) {
                self.is_running
            } else {
                None
            }),
    {
        match (self.last_update, self.is_running) {
            (Some(t), Some(v)) => {
                let age: u64 = if now >= t { now - t } else { 0 };
                if age < CACHE_DURATION_MS {
                    Some(v)
                } else {
                    None
                }
            },
            _ => None,
        }
    }

    /// Stores `result`, taken at `now`.
    pub fn record(&mut self, result: bool, now: u64)
        ensures
            final(self).is_running == Some(result),
            final(self).last_update == Some(now),
    {
        self.is_running = Some(result);
        self.last_update = Some(now);
    }

    /// The cached answer while it is fresh; otherwise a new scan of the
    /// process table, which is stored with the time `now`.
    pub fn get(&mut self, now: u64) -> (r: bool)
        ensures
            old(self).is_fresh(now) ==> Some(r) == old(self).is_running
                && *final(self) == *old(self),
            !old(self).is_fresh(now) ==> final(self).is_running == Some(r)
                && final(self).last_update == Some(now),
    {
        match self.cached(now) {
            Some(v) => v,
            None => {
                let result = check_nanobot_running_impl();
                self.record(result, now);
                result
            },
        }
    }

    /// Drops the cached answer, so that the next read scans.
    pub fn invalidate(&mut self)
        ensures
            *final(self) == invalidated(*old(self)),
            *final(self) == empty_cache(),
    {
        self.is_running = None;
        self.last_update = None;
    }

    /// Drops the cached answer if it was taken more than `max_age` before
    /// `now`.
    pub fn invalidate_if_older(&mut self, now: u64, max_age: u64)
        ensures
            *final(self) == (match old(self).last_update {
                Some(t) => if elapsed(t, now) > max_age {
                    empty_cache()
                } else {
                    *old(self)
                },
                None => *old(self),
            }),
    {
        if let Some(t) = self.last_update {
            let age: u64 = if now >= t { now - t } else { 0 };
            if age > max_age {
                self.invalidate();
            }
        }
    }
}

/// The liveness answer through the shared cache slot, creating the cache on
/// first use.
pub fn get_cached_nanobot_status(slot: &mut Option<ProcessCheckCache>, now: u64) -> (r: bool)
    ensures
        final(slot).is_some(),
        ({
            let before = match *old(slot) {
                Some(c) => c,
                None => empty_cache(),
            };
            let after = final(slot).unwrap();
            &&& before.is_fresh(now) ==> Some(r) == before.is_running && after == before
            &&& !before.is_fresh(now) ==> after.is_running == Some(r) && after.last_update == Some(
                now,
            )
        }),
{
    let mut cache = match slot.take() {
        Some(c) => c,
        None => ProcessCheckCache::new(),
    };
    let r = cache.get(now);
    *slot = Some(cache);
    r
}

/// Whether the worker is running, through the shared cache slot.
pub fn check_nanobot_running(slot: &mut Option<ProcessCheckCache>, now: u64) -> (r: bool)
    ensures
        final(slot).is_some(),
        ({
            let before = match *old(slot) {
                Some(c) => c,
                None => empty_cache(),
            };
            let after = final(slot).unwrap();
            &&& before.is_fresh(now) ==> Some(r) == before.is_running && after == before
            &&& !before.is_fresh(now) ==> after.is_running == Some(r) && after.last_update == Some(
                now,
            )
        }),
{
    get_cached_nanobot_status(slot, now)
}

/// Drops the cached answer in the shared slot, if a cache exists.
pub fn invalidate_cache(slot: &mut Option<ProcessCheckCache>)
    ensures
        *final(slot) == (match *old(slot) {
            Some(_) => Some(empty_cache()),
            None => None,
        }),
{
    if let Some(c) = slot {
        c.invalidate();
    }
}

/// Drops the cached answer in the shared slot if it is older than
/// [`STATUS_MAX_AGE_MS`] at `now`.
pub fn invalidate_cache_if_expired(slot: &mut Option<ProcessCheckCache>, now: u64)
    ensures
        *final(slot) == (match *old(slot) {
            Some(c) => Some(
                match c.last_update {
                    Some(t) => if elapsed(t, now) > STATUS_MAX_AGE_MS {
                        empty_cache()
                    } else {
                        c
                    },
                    None => c,
                },
            ),
            None => None,
        }),
{
    if let Some(c) = slot {
        c.invalidate_if_older(now, STATUS_MAX_AGE_MS);
    }
}

/// However many times the cache is invalidated, afterwards it holds no
/// answer that may be reused at any time: the next status read scans the
/// process table and stores what it found with the time of that read.
pub proof fn lemma_invalidation_forces_scan(c: ProcessCheckCache, k: nat, now: u64)
    requires
        k >= 1,
    ensures
        invalidated_times(c, k) == empty_cache(),
        !invalidated_times(c, k).is_fresh(now),
    decreases k,
{
    if k > 1 {
        lemma_invalidation_forces_scan(c, (k - 1) as nat, now);
    }
}

} // verus!
