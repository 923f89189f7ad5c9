//! TTL cache of per-guild weight configurations.
//!
//! An entry stays valid for a fixed wall-clock window after it was fetched
//! from the persistent store; once the window has passed, the caller must
//! fetch again and store the fresh value. Fetching itself suspends on the
//! store and therefore happens outside this core: the cache only decides
//! freshness and records results.

use vstd::prelude::*;
use std::collections::HashMap;
use crate::weights::SpamConfig;

verus! {

broadcast use vstd::std_specs::hash::group_hash_axioms;

/// Default validity window of a cached configuration: ten seconds.
pub const DEFAULT_CONFIG_TTL: u64 = 10_000_000;

/// One cached configuration and the instant it was fetched at.
#[derive(Clone, Copy, Debug, PartialEq, Eq, Structural)]
pub struct CacheEntry {
    /// The weight configuration the store returned.
    pub value: SpamConfig,
    /// When the value was fetched, in microseconds.
    pub fetched_at: u64,
}

/// TTL cache mapping guild id to weight configuration.
pub struct ConfigCache {
    ttl: u64,
    entries: HashMap<u64, CacheEntry>,
}

impl ConfigCache {
    /// The cached entries, guild id to entry.
    pub closed spec fn entries(self) -> Map<u64, CacheEntry> {
        self.entries@
    }

    /// The validity window of an entry, in microseconds.
    pub closed spec fn ttl(self) -> u64 {
        self.ttl
    }

    /// Whether an entry is still valid at `now`: strictly less than the
    /// validity window has passed since it was fetched.
    pub open spec fn entry_fresh(self, e: CacheEntry, now: u64) -> bool {
        now < e.fetched_at + self.ttl()
    }

    /// An empty cache whose entries stay valid for `ttl` microseconds.
    pub fn new(ttl: u64) -> (c: ConfigCache)
        ensures
            c.ttl() == ttl,
            c.entries() == Map::<u64, CacheEntry>::empty(),
    {
        ConfigCache { ttl, entries: HashMap::new() }
    }

    /// The cached configuration of `guild`, if one is present and still
    /// valid at `now`; `None` demands a fetch from the persistent store.
    pub fn lookup_fresh(&self, guild: u64, now: u64) -> (r: Option<SpamConfig>)
        ensures
            match r {
                Some(conf) => self.entries().contains_key(guild) && self.entry_fresh(
                    self.entries()[guild],
                    now,
                ) && conf == self.entries()[guild].value,
                None => !self.entries().contains_key(guild) || !self.entry_fresh(
                    self.entries()[guild],
                    now,
                ),
            },
    {
        match self.entries.get(&guild) {
            Some(e) => {
                if now < e.fetched_at || (now - e.fetched_at) < self.ttl {
                    Some(e.value)
                } else {
                    None
                }
            },
            None => None,
        }
    }

    /// Records a configuration freshly fetched at `now`, replacing whatever
    /// was cached for the guild; concurrent refreshes race and the last
    /// write wins.
    pub fn store(&mut self, guild: u64, value: SpamConfig, now: u64)
        ensures
            final(self).entries() == old(self).entries().insert(
                guild,
                CacheEntry { value, fetched_at: now },
            ),
            final(self).ttl() == old(self).ttl(),
    {
        self.entries.insert(guild, CacheEntry { value, fetched_at: now });
    }
}

/// Staleness bound: once a full validity window has passed since an instant
/// `change` (say, of a configuration change in the store), no entry fetched
/// at or before `change` is still served — every lookup at such a `now`
/// either returns a value fetched after the change or forces a fetch.
pub proof fn lemma_staleness_bound(c: ConfigCache, guild: u64, now: u64, change: u64)
    requires
        c.entries().contains_key(guild) ==> c.entries()[guild].fetched_at <= change,
        now - change >= c.ttl(),
        now >= change,
    ensures
        c.entries().contains_key(guild) ==> !c.entry_fresh(c.entries()[guild], now),
{
}

} // verus!
