//! The package cache — the single slot holding the last successful scan and
//! the fingerprint it was computed against — and the debounce gate that
//! absorbs rapid repeated refresh requests. The surrounding binary owns one
//! instance of each and serialises access; here they are plain values with
//! exact contracts.

use vstd::prelude::*;
use crate::model::{package_models, PackageModel, ScoopPackage};

verus! {

/// How long after a refresh further refresh requests are served from cache,
/// in milliseconds.
pub const REFRESH_DEBOUNCE_MS: u64 = 1000;

/// The last successful scan result and its fingerprint.
#[derive(Clone, Debug, PartialEq, Eq)]
pub struct CacheEntry {
    pub packages: Vec<ScoopPackage>,
    pub fingerprint: String,
}

/// Model of a [`CacheEntry`].
pub struct CacheEntryModel {
    pub packages: Seq<PackageModel>,
    pub fingerprint: Seq<char>,
}

impl View for CacheEntry {
    type V = CacheEntryModel;

    open spec fn view(&self) -> CacheEntryModel {
        CacheEntryModel { packages: package_models(self.packages@), fingerprint: self.fingerprint@ }
    }
}

/// The shared cache slot: empty, or one entry, replaced wholesale on every
/// successful scan.
#[derive(Debug)]
pub struct PackageCache {
    entry: Option<CacheEntry>,
}

impl View for PackageCache {
    type V = Option<CacheEntryModel>;

    closed spec fn view(&self) -> Option<CacheEntryModel> {
        match self.entry {
            Option::Some(ref e) => Option::Some(e@),
            Option::None => Option::None,
        }
    }
}

impl PackageCache {
    /// A cache with no entry.
    pub fn new() -> (r: PackageCache)
        ensures
            r@ is None,
    {
        PackageCache { entry: Option::None }
    }

    /// The cached entry, if one is present.
    pub fn read(&self) -> (r: Option<&CacheEntry>)
        ensures
            (r is Some) == (self@ is Some),
            r matches Option::Some(e) ==> self@ == Option::Some(e@),
    {
        match self.entry {
            Option::Some(ref e) => Option::Some(e),
            Option::None => Option::None,
        }
    }

    /// Replaces the cache contents with `entry`.
    pub fn write(&mut self, entry: CacheEntry)
        ensures
            final(self)@ == Option::Some(entry@),
    {
        self.entry = Option::Some(entry);
    }

    /// Empties the cache: the next scan will re-read the filesystem.
    pub fn clear(&mut self)
        ensures
            final(self)@ is None,
    {
        self.entry = Option::None;
    }
}

/// Whether a refresh at `now_ms` falls inside the debounce window after a
/// last refresh at `last`.
pub open spec fn spec_should_debounce(last: Option<u64>, now_ms: u64) -> bool {
    match last {
        Option::Some(t) => t <= now_ms && now_ms - t < REFRESH_DEBOUNCE_MS,
        Option::None => false,
    }
}

/// The refresh coordinator's state: the time of the last refresh that was
/// allowed to proceed.
#[derive(Debug)]
pub struct RefreshGate {
    last_refresh_ms: Option<u64>,
}

impl View for RefreshGate {
    type V = Option<u64>;

    closed spec fn view(&self) -> Option<u64> {
        self.last_refresh_ms
    }
}

impl RefreshGate {
    /// A gate that has never seen a refresh.
    pub fn new() -> (r: RefreshGate)
        ensures
            r@ is None,
    {
        RefreshGate { last_refresh_ms: Option::None }
    }

    /// Whether a refresh at `now_ms` should be absorbed. `now_ms` must come
    /// from a monotonic clock; a reading older than the recorded refresh is
    /// treated as outside the window.
    pub fn should_debounce_refresh(&self, now_ms: u64) -> (r: bool)
        ensures
            r == spec_should_debounce(self@, now_ms),
    {
        match self.last_refresh_ms {
            Option::Some(t) => t <= now_ms && now_ms - t < REFRESH_DEBOUNCE_MS,
            Option::None => false,
        }
    }

    /// Records that a refresh proceeded at `now_ms`.
    pub fn update_refresh_time(&mut self, now_ms: u64)
        ensures
            final(self)@ == Option::Some(now_ms),
    {
        self.last_refresh_ms = Option::Some(now_ms);
    }
}

} // verus!
