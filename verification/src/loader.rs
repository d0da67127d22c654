//! The catalog loader: where the cache lives, how long it stays fresh, and
//! what to do at start-up: use the cache or fetch.
//!
//! The loader decides; its caller performs the fetch and owns the storage.

use crate::cache::{day, is_fresh, load_of, store_of, ElementCache};
use crate::catalog::Catalog;
use crate::parser::{parse_catalog, parsed_catalog};
use vstd::prelude::*;
use vstd::string::StringExecFns;

verus! {

/// Why the loader asks for a fetch.
#[derive(Clone, Copy, Debug, PartialEq, Eq, Structural)]
pub enum FetchReason {
    /// The cache holds no snapshot.
    NoCache,
    /// The cache holds a snapshot that is too old.
    Expired,
}

/// What the loader does next.
pub enum LoadStep {
    /// The cache is fresh: these are its records.
    Cached(Catalog),
    /// The catalog text has to be fetched.
    Fetch(FetchReason),
}

/// Why no catalog could be loaded.
#[derive(Clone, Copy, Debug, PartialEq, Eq, Structural)]
pub enum LoadError {
    /// The cache holds no snapshot.
    CacheMissing,
    /// The cache was of no use and the fetch failed.
    FetchFailed,
}

/// The loader's settings.
pub struct TleLoader {
    cache_dir: String,
    cache_file: String,
    cache_max_age_hours: u64,
}

impl TleLoader {
    #[verifier::type_invariant]
    spec fn inv(self) -> bool {
        self.cache_max_age_hours * 3600 <= u64::MAX
    }

    /// The directory of the cache.
    pub closed spec fn dir(&self) -> Seq<char> {
        self.cache_dir@
    }

    /// The file that holds the snapshot.
    pub closed spec fn file(&self) -> Seq<char> {
        self.cache_file@
    }

    /// The maximal age of a fresh snapshot, in hours.
    pub closed spec fn max_age_hours(&self) -> nat {
        self.cache_max_age_hours as nat
    }

    /// The maximal age of a fresh snapshot, in seconds.
    pub open spec fn max_age(&self) -> int {
        self.max_age_hours() as int * 3600
    }

    /// The loader of `new` takes a snapshot for fresh for one day.
    pub proof fn lemma_default_max_age(&self)
        requires
            self.max_age_hours() == 24,
        ensures
            self.max_age() == day(),
    {
    }

    /// A loader that keeps its snapshot in `cache/tle_cache.json` and takes
    /// it for fresh for 24 hours.
    pub fn new() -> (out: Self)
        ensures
            out.dir() == "cache"@,
            out.file() == "cache/tle_cache.json"@,
            out.file() == out.dir() + "/tle_cache.json"@,
            out.max_age_hours() == 24,
    {
        let cache_dir = String::from_str("cache");
        let cache_file = String::from_str("cache").concat("/tle_cache.json");
        proof {
            reveal_strlit("cache");
            reveal_strlit("/tle_cache.json");
            reveal_strlit("cache/tle_cache.json");
            assert("cache"@ + "/tle_cache.json"@ =~= "cache/tle_cache.json"@);
        }
        TleLoader { cache_dir, cache_file, cache_max_age_hours: 24 }
    }

    /// The directory of the cache.
    pub fn cache_path(&self) -> (out: &str)
        ensures
            out@ == self.dir(),
    {
        self.cache_dir.as_str()
    }

    /// The file that holds the snapshot.
    pub fn cache_file_path(&self) -> (out: &str)
        ensures
            out@ == self.file(),
    {
        self.cache_file.as_str()
    }

    /// The maximal age of a fresh snapshot, in seconds.
    pub fn max_age_seconds(&self) -> (out: u64)
        ensures
            out == self.max_age(),
    {
        proof {
            use_type_invariant(self);
        }
        self.cache_max_age_hours * 3600
    }

    /// Whether the cache holds a snapshot that is fresh at `now`.
    pub fn is_cache_valid(&self, cache: &ElementCache, now: i64) -> (b: bool)
        ensures
            b == (load_of(cache@, now as int, self.max_age()) is Some),
    {
        cache.load(now, self.max_age_seconds()).is_some()
    }

    /// The records of the snapshot, whatever its age.
    pub fn load_from_cache(&self, cache: &ElementCache) -> (out: Result<Catalog, LoadError>)
        ensures
            match out {
                Ok(records) => cache@ matches Some(s) && records@ == s.records,
                Err(e) => e == LoadError::CacheMissing && cache@ is None,
            },
    {
        match cache.snapshot() {
            Some(s) => Ok(s.records.clone()),
            None => Err(LoadError::CacheMissing),
        }
    }

    /// Makes `data`, stamped with `now`, the snapshot of the cache.
    pub fn save_to_cache(&self, cache: &mut ElementCache, data: &Catalog, now: i64)
        ensures
            final(cache)@ == store_of(data@, now as int),
    {
        cache.store(data.clone(), now);
    }

    /// Reads the catalog from the text that was fetched, makes it the
    /// snapshot of the cache, and returns it.
    pub fn download_tle_data(&self, cache: &mut ElementCache, text: &str, now: i64) -> (out:
        Catalog)
        ensures
            out@ == parsed_catalog(text@),
            final(cache)@ == store_of(parsed_catalog(text@), now as int),
    {
        let records = parse_catalog(text);
        self.save_to_cache(cache, &records, now);
        records
    }

    /// The first step of loading: the records of the cache where it is fresh
    /// at `now`, and else the request to fetch, with the reason.
    pub fn load_active_satellites(&self, cache: &ElementCache, now: i64) -> (out: LoadStep)
        ensures
            match out {
                LoadStep::Cached(records) => cache@ matches Some(s) && is_fresh(
                    s.downloaded_at,
                    now as int,
                    self.max_age(),
                ) && records@ == s.records,
                LoadStep::Fetch(reason) => match cache@ {
                    Some(s) => reason == FetchReason::Expired && !is_fresh(
                        s.downloaded_at,
                        now as int,
                        self.max_age(),
                    ),
                    None => reason == FetchReason::NoCache,
                },
            },
    {
        if self.is_cache_valid(cache, now) {
            match self.load_from_cache(cache) {
                Ok(records) => LoadStep::Cached(records),
                Err(_) => LoadStep::Fetch(FetchReason::NoCache),
            }
        } else if cache.snapshot().is_some() {
            LoadStep::Fetch(FetchReason::Expired)
        } else {
            LoadStep::Fetch(FetchReason::NoCache)
        }
    }

    /// The second step of loading, after a fetch: the catalog read from the
    /// text, which becomes the snapshot of the cache; or, where the fetch
    /// gave nothing, the error, with the cache as it was.
    pub fn finish_load(&self, cache: &mut ElementCache, fetched: Option<&str>, now: i64) -> (out:
        Result<Catalog, LoadError>)
        ensures
            match fetched {
                Some(text) => final(cache)@ == store_of(parsed_catalog(text@), now as int) && (
                out matches Ok(records) && records@ == parsed_catalog(text@)),
                None => out == Err::<Catalog, LoadError>(LoadError::FetchFailed) && *final(cache)
                    == *old(cache),
            },
    {
        match fetched {
            Some(text) => Ok(self.download_tle_data(cache, text, now)),
            None => Err(LoadError::FetchFailed),
        }
    }

    /// Removes the snapshot from the cache.
    pub fn clear_cache(&self, cache: &mut ElementCache)
        ensures
            final(cache)@ is None,
    {
        cache.clear();
    }
}

} // verus!
