//! Configuration of the cache: which resource categories it maintains and
//! how much message history it keeps. Both are fixed when the cache is built.

use vstd::prelude::*;

verus! {

/// Category bit: channels of every kind.
pub const RESOURCE_CHANNEL: u64 = 0x1;

/// Category bit: custom emojis.
pub const RESOURCE_EMOJI: u64 = 0x2;

/// Category bit: guilds themselves.
pub const RESOURCE_GUILD: u64 = 0x4;

/// Category bit: guild integrations.
pub const RESOURCE_INTEGRATION: u64 = 0x8;

/// Category bit: guild members.
pub const RESOURCE_MEMBER: u64 = 0x10;

/// Category bit: message history.
pub const RESOURCE_MESSAGE: u64 = 0x20;

/// Category bit: presences.
pub const RESOURCE_PRESENCE: u64 = 0x40;

/// Category bit: reactions on cached messages.
pub const RESOURCE_REACTION: u64 = 0x80;

/// Category bit: guild roles.
pub const RESOURCE_ROLE: u64 = 0x100;

/// Category bit: stage instances.
pub const RESOURCE_STAGE_INSTANCE: u64 = 0x200;

/// Category bit: the current authenticated user.
pub const RESOURCE_USER_CURRENT: u64 = 0x400;

/// Category bit: voice states.
pub const RESOURCE_VOICE_STATE: u64 = 0x800;

/// All categories.
pub const RESOURCE_ALL: u64 = 0xFFF;

/// How many messages each channel's history window may hold by default.
pub const DEFAULT_MESSAGE_CACHE_SIZE: usize = 100;

/// The fixed configuration of a cache.
#[derive(Clone, Copy, Debug, PartialEq, Eq, Structural)]
pub struct Config {
    /// Bitmask of the resource categories that are maintained.
    pub resource_types: u64,
    /// Capacity of each channel's message window; zero disables the window.
    pub message_cache_size: usize,
}

impl Config {
    /// A configuration that maintains every category and keeps the default
    /// amount of message history.
    pub fn new() -> (r: Self)
        ensures
            r.resource_types == RESOURCE_ALL,
            r.message_cache_size == DEFAULT_MESSAGE_CACHE_SIZE,
    {
        Config { resource_types: RESOURCE_ALL, message_cache_size: DEFAULT_MESSAGE_CACHE_SIZE }
    }

    /// Returns the bitmask of maintained resource categories.
    pub fn resource_types(&self) -> (r: u64)
        ensures
            r == self.resource_types,
    {
        self.resource_types
    }

    /// Returns the capacity of each channel's message window.
    pub fn message_cache_size(&self) -> (r: usize)
        ensures
            r == self.message_cache_size,
    {
        self.message_cache_size
    }
}

impl Default for Config {
    fn default() -> (r: Self)
        ensures
            r.resource_types == RESOURCE_ALL,
            r.message_cache_size == DEFAULT_MESSAGE_CACHE_SIZE,
    {
        Config::new()
    }
}

/// Builds a cache with a custom configuration.
#[derive(Clone, Copy, Debug, PartialEq, Eq, Structural)]
pub struct InMemoryCacheBuilder {
    config: Config,
}

impl InMemoryCacheBuilder {
    /// Starts from the default configuration.
    pub fn new() -> (r: Self)
        ensures
            r.config().resource_types == crate::config::RESOURCE_ALL,
            r.config().message_cache_size == crate::config::DEFAULT_MESSAGE_CACHE_SIZE,
    {
        InMemoryCacheBuilder {
            config: Config {
                resource_types: RESOURCE_ALL,
                message_cache_size: DEFAULT_MESSAGE_CACHE_SIZE,
            },
        }
    }

    /// The configuration built so far.
    pub closed spec fn config(&self) -> Config {
        self.config
    }

    /// Restricts the cache to the given resource categories.
    pub fn resource_types(self, mask: u64) -> (r: Self)
        ensures
            r.config().resource_types == mask,
            r.config().message_cache_size == self.config().message_cache_size,
    {
        InMemoryCacheBuilder {
            config: Config {
                resource_types: mask,
                message_cache_size: self.config.message_cache_size,
            },
        }
    }

    /// Sets the capacity of each channel's message window.
    pub fn message_cache_size(self, size: usize) -> (r: Self)
        ensures
            r.config().message_cache_size == size,
            r.config().resource_types == self.config().resource_types,
    {
        InMemoryCacheBuilder {
            config: Config {
                resource_types: self.config.resource_types,
                message_cache_size: size,
            },
        }
    }

    /// Builds the cache.
    pub fn build(self) -> (r: crate::cache::InMemoryCache)
        ensures
            r@ == crate::cache::CacheView::empty(self.config().resource_types,
                self.config().message_cache_size as nat),
            r.inv(),
    {
        crate::cache::InMemoryCache::new_with_config(self.config)
    }
}

} // verus!
