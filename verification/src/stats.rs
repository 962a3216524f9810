//! Aggregate counts over the cache's tables, for observability. No mutation
//! path exists through this interface.

use vstd::prelude::*;
use crate::cache::InMemoryCache;

verus! {

/// An interface for retrieving statistics about a cache.
pub struct InMemoryCacheStats<'a> {
    cache: &'a InMemoryCache,
}

impl<'a> InMemoryCacheStats<'a> {
    /// The cache the statistics are read from.
    pub closed spec fn spec_cache(&self) -> &'a InMemoryCache {
        self.cache
    }

    /// Creates an interface over the given cache.
    pub fn new(cache: &'a InMemoryCache) -> (r: Self)
        ensures
            r.spec_cache() == cache,
    {
        InMemoryCacheStats { cache }
    }

    /// Number of cached guilds.
    pub fn guilds(&self) -> (r: usize)
        requires
            self.spec_cache().inv(),
        ensures
            r == self.spec_cache()@.guilds.dom().len(),
    {
        proof {
            assert(self.cache@.guilds.dom() =~= self.cache.guilds@.dom());
        }
        self.cache.guilds.len()
    }

    /// Number of cached guild channels.
    pub fn channels_guild(&self) -> (r: usize)
        requires
            self.spec_cache().inv(),
        ensures
            r == self.spec_cache()@.channels_guild.dom().len(),
    {
        proof {
            assert(self.cache@.channels_guild.dom() =~= self.cache.channels_guild@.dom());
        }
        self.cache.channels_guild.len()
    }

    /// Number of cached emojis.
    pub fn emojis(&self) -> (r: usize)
        requires
            self.spec_cache().inv(),
        ensures
            r == self.spec_cache()@.emojis.dom().len(),
    {
        proof {
            assert(self.cache@.emojis.dom() =~= self.cache.emojis@.dom());
        }
        self.cache.emojis.len()
    }

    /// Number of cached members.
    pub fn members(&self) -> (r: usize)
        requires
            self.spec_cache().inv(),
        ensures
            r == self.spec_cache()@.members.dom().len(),
    {
        proof {
            assert(self.cache@.members.dom() =~= self.cache.members@.dom());
        }
        self.cache.members.len()
    }

    /// Number of cached presences.
    pub fn presences(&self) -> (r: usize)
        requires
            self.spec_cache().inv(),
        ensures
            r == self.spec_cache()@.presences.dom().len(),
    {
        proof {
            assert(self.cache@.presences.dom() =~= self.cache.presences@.dom());
        }
        self.cache.presences.len()
    }

    /// Number of cached roles.
    pub fn roles(&self) -> (r: usize)
        requires
            self.spec_cache().inv(),
        ensures
            r == self.spec_cache()@.roles.dom().len(),
    {
        proof {
            assert(self.cache@.roles.dom() =~= self.cache.roles@.dom());
        }
        self.cache.roles.len()
    }

    /// Number of cached users.
    pub fn users(&self) -> (r: usize)
        requires
            self.spec_cache().inv(),
        ensures
            r == self.spec_cache()@.users.dom().len(),
    {
        proof {
            assert(self.cache@.users.dom() =~= self.cache.users@.dom());
        }
        self.cache.users.len()
    }

    /// Number of cached voice states.
    pub fn voice_states(&self) -> (r: usize)
        requires
            self.spec_cache().inv(),
        ensures
            r == self.spec_cache()@.voice_states.dom().len(),
    {
        proof {
            assert(self.cache@.voice_states.dom() =~= self.cache.voice_states@.dom());
        }
        self.cache.voice_states.len()
    }
}

impl InMemoryCache {
    /// Creates an interface for retrieving statistics about the cache.
    pub fn stats(&self) -> (r: InMemoryCacheStats<'_>)
        ensures
            r.spec_cache() == self,
    {
        InMemoryCacheStats::new(self)
    }
}

} // verus!
