//! The element cache: one snapshot of a catalog with the time of its
//! download, and the rule by which a snapshot counts as fresh.
//!
//! The cache is a value. Whoever owns the storage writes `snapshot()` out
//! after a change and hands what it read back to `restore`.

use crate::catalog::{Catalog, ElementRecord};
use vstd::prelude::*;

verus! {

/// Seconds in 24 hours.
pub open spec fn day() -> int {
    86400
}

/// A catalog together with the time of its download, in seconds since the
/// Unix epoch.
pub struct ElementCacheSnapshot {
    pub records: Catalog,
    pub downloaded_at: i64,
}

/// What a snapshot holds, as plain values.
pub struct SnapshotView {
    pub records: Map<Seq<char>, ElementRecord>,
    pub downloaded_at: int,
}

impl ElementCacheSnapshot {
    pub open spec fn view(&self) -> SnapshotView {
        SnapshotView { records: self.records@, downloaded_at: self.downloaded_at as int }
    }
}

/// Whether data downloaded at `downloaded_at` is fresh at `now` under a
/// maximal age of `max_age` seconds: its age is strictly below `max_age`.
pub open spec fn is_fresh(downloaded_at: int, now: int, max_age: int) -> bool {
    now - downloaded_at < max_age
}

/// What `load` answers on a cache that holds `slot`.
pub open spec fn load_of(slot: Option<SnapshotView>, now: int, max_age: int) -> Option<
    SnapshotView,
> {
    match slot {
        Some(s) => if is_fresh(s.downloaded_at, now, max_age) {
            Some(s)
        } else {
            None
        },
        None => None,
    }
}

/// What a cache holds after `store`.
pub open spec fn store_of(records: Map<Seq<char>, ElementRecord>, now: int) -> Option<
    SnapshotView,
> {
    Some(SnapshotView { records, downloaded_at: now })
}

/// What a cache holds after `clear`.
pub open spec fn clear_of(slot: Option<SnapshotView>) -> Option<SnapshotView> {
    None
}

/// What was stored is loaded back unchanged as long as its age at the time of
/// loading is below `max_age`; loading at the moment of storing succeeds for
/// every positive `max_age`.
pub proof fn lemma_store_then_load(
    records: Map<Seq<char>, ElementRecord>,
    stored_at: int,
    loaded_at: int,
    max_age: int,
)
    requires
        loaded_at - stored_at < max_age,
    ensures
        load_of(store_of(records, stored_at), loaded_at, max_age) == Some(
            SnapshotView { records, downloaded_at: stored_at },
        ),
        max_age > 0 ==> load_of(store_of(records, stored_at), stored_at, max_age) == store_of(
            records,
            stored_at,
        ),
{
}

/// With a maximal age of 24 hours, a snapshot that is 24 hours and one second
/// old is stale, and one that is 23 hours old is fresh.
pub proof fn lemma_expiry_boundary(now: int)
    ensures
        !is_fresh(now - day() - 1, now, day()),
        is_fresh(now - 23 * 3600, now, day()),
{
}

/// A snapshot is fresh exactly until its age reaches `max_age`.
pub proof fn lemma_fresh_until(downloaded_at: int, now: int, max_age: int)
    ensures
        is_fresh(downloaded_at, now, max_age) <==> now < downloaded_at + max_age,
        now <= downloaded_at && max_age > 0 ==> is_fresh(downloaded_at, now, max_age),
{
}

/// Clearing twice is clearing once, and nothing is loaded from a cleared
/// cache.
pub proof fn lemma_clear_idempotent(slot: Option<SnapshotView>, now: int, max_age: int)
    ensures
        clear_of(clear_of(slot)) == clear_of(slot),
        load_of(clear_of(slot), now, max_age) is None,
{
}

/// Whether data downloaded at `downloaded_at` is fresh at `now`.
pub fn fresh(downloaded_at: i64, now: i64, max_age: u64) -> (b: bool)
    ensures
        b == is_fresh(downloaded_at as int, now as int, max_age as int),
{
    let age: i128 = now as i128 - downloaded_at as i128;
    age < max_age as i128
}

/// The cache: at most one snapshot.
pub struct ElementCache {
    slot: Option<ElementCacheSnapshot>,
}

impl ElementCache {
    /// The snapshot that the cache holds.
    pub closed spec fn view(&self) -> Option<SnapshotView> {
        match self.slot {
            Some(s) => Some(s@),
            None => None,
        }
    }

    /// A cache without a snapshot.
    pub fn new() -> (out: Self)
        ensures
            out@ is None,
    {
        ElementCache { slot: None }
    }

    /// A cache that holds what was read from storage: `None` where nothing
    /// was there or it could not be read.
    pub fn restore(slot: Option<ElementCacheSnapshot>) -> (out: Self)
        ensures
            out@ == match slot {
                Some(s) => Some(s@),
                None => None,
            },
    {
        ElementCache { slot }
    }

    /// The snapshot as it is to be written to storage, fresh or not.
    pub fn snapshot(&self) -> (out: Option<&ElementCacheSnapshot>)
        ensures
            match out {
                Some(s) => self@ == Some(s@),
                None => self@ is None,
            },
    {
        self.slot.as_ref()
    }

    /// The snapshot, if there is one and it is fresh at `now` under a maximal
    /// age of `max_age` seconds.
    pub fn load(&self, now: i64, max_age: u64) -> (out: Option<&ElementCacheSnapshot>)
        ensures
            match out {
                Some(s) => load_of(self@, now as int, max_age as int) == Some(s@),
                None => load_of(self@, now as int, max_age as int) is None,
            },
    {
        match &self.slot {
            Some(s) => {
                if fresh(s.downloaded_at, now, max_age) {
                    Some(s)
                } else {
                    None
                }
            },
            None => None,
        }
    }

    /// Makes `records`, stamped with `now`, the one snapshot of the cache.
    pub fn store(&mut self, records: Catalog, now: i64)
        ensures
            final(self)@ == store_of(records@, now as int),
    {
        self.slot = Some(ElementCacheSnapshot { records, downloaded_at: now });
    }

    /// Removes the snapshot.
    pub fn clear(&mut self)
        ensures
            final(self)@ == clear_of(old(self)@),
    {
        self.slot = None;
    }
}

} // verus!
