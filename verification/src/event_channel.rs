//! Handlers for channel events: guild channels, private channels, groups,
//! and pin-timestamp updates.

use vstd::prelude::*;
use crate::cache::CacheView;
use crate::cache::InMemoryCache;
use crate::cache::cache_inv;
use crate::channel::Channel;
use crate::channel::Group;
use crate::channel::GuildChannel;
use crate::channel::GuildChannelView;
use crate::channel::PrivateChannel;
use crate::config::RESOURCE_CHANNEL;
use crate::id::ChannelId;
use crate::id::GuildId;
use crate::index::lemma_linked_del;
use crate::index::lemma_linked_put;
use crate::index::del_guild_item;
use crate::index::put_guild_item;
use crate::index::spec_del_item;
use crate::index::spec_put_item;
use crate::util::clone_opt_string;
use crate::util::opt_string_view;

verus! {

/// A guild channel's view with its owning guild pinned.
pub open spec fn channel_with_guild(ch: GuildChannel, g: u64) -> GuildChannelView {
    GuildChannelView { guild_id: Some(g), ..ch@ }
}

/// The cache after storing a channel of a guild. The stored record carries
/// the owning guild's id.
pub open spec fn spec_cache_guild_channel(s: CacheView, g: u64, ch: GuildChannel) -> CacheView {
    if !s.wants(RESOURCE_CHANNEL) {
        s
    } else {
        let put = spec_put_item(s.channels_guild, s.guild_channels, g, ch.id@, channel_with_guild(ch, g));
        CacheView { channels_guild: put.0, guild_channels: put.1, ..s }
    }
}

/// The cache after a guild channel was deleted.
pub open spec fn spec_delete_guild_channel(s: CacheView, c: u64) -> CacheView {
    if !s.wants(RESOURCE_CHANNEL) {
        s
    } else {
        let del = spec_del_item(s.channels_guild, s.guild_channels, c);
        CacheView { channels_guild: del.0, guild_channels: del.1, ..s }
    }
}

/// The cache after storing a private channel.
pub open spec fn spec_cache_private_channel(s: CacheView, ch: PrivateChannel) -> CacheView {
    if !s.wants(RESOURCE_CHANNEL) {
        s
    } else {
        CacheView { channels_private: s.channels_private.insert(ch.id@, ch@), ..s }
    }
}

/// The cache after a private channel was deleted.
pub open spec fn spec_delete_private_channel(s: CacheView, c: u64) -> CacheView {
    if !s.wants(RESOURCE_CHANNEL) {
        s
    } else {
        CacheView { channels_private: s.channels_private.remove(c), ..s }
    }
}

/// The cache after storing a group channel.
pub open spec fn spec_cache_group(s: CacheView, ch: Group) -> CacheView {
    if !s.wants(RESOURCE_CHANNEL) {
        s
    } else {
        CacheView { groups: s.groups.insert(ch.id@, ch@), ..s }
    }
}

/// The cache after a group channel was deleted.
pub open spec fn spec_delete_group(s: CacheView, c: u64) -> CacheView {
    if !s.wants(RESOURCE_CHANNEL) {
        s
    } else {
        CacheView { groups: s.groups.remove(c), ..s }
    }
}

/// The cache after storing any channel.
pub open spec fn spec_cache_channel(s: CacheView, channel: Channel) -> CacheView {
    match channel {
        Channel::Guild(ch) => match ch.guild_id {
            Some(g) => spec_cache_guild_channel(s, g@, ch),
            None => s,
        },
        Channel::Private(ch) => spec_cache_private_channel(s, ch),
        Channel::Group(ch) => spec_cache_group(s, ch),
    }
}

/// The cache after any channel was deleted.
pub open spec fn spec_delete_channel(s: CacheView, channel: Channel) -> CacheView {
    match channel {
        Channel::Guild(ch) => spec_delete_guild_channel(s, ch.id@),
        Channel::Private(ch) => spec_delete_private_channel(s, ch.id@),
        Channel::Group(ch) => spec_delete_group(s, ch.id@),
    }
}

/// The cache after a pins update: the matching channel's pin timestamp is
/// merged; an update for an unknown channel is dropped.
pub open spec fn spec_channel_pins_update(
    s: CacheView,
    c: u64,
    ts: Option<Seq<char>>,
) -> CacheView {
    if !s.wants(RESOURCE_CHANNEL) {
        s
    } else if s.channels_guild.dom().contains(c) {
        let item = s.channels_guild[c];
        CacheView {
            channels_guild: s.channels_guild.insert(
                c,
                (item.0, GuildChannelView { last_pin_timestamp: ts, ..item.1 }),
            ),
            ..s
        }
    } else if s.channels_private.dom().contains(c) {
        let ch = s.channels_private[c];
        CacheView {
            channels_private: s.channels_private.insert(
                c,
                crate::channel::PrivateChannelView { last_pin_timestamp: ts, ..ch },
            ),
            ..s
        }
    } else if s.groups.dom().contains(c) {
        let ch = s.groups[c];
        CacheView {
            groups: s.groups.insert(
                c,
                crate::channel::GroupView { last_pin_timestamp: ts, ..ch },
            ),
            ..s
        }
    } else {
        s
    }
}

/// Storing a guild channel preserves the cache invariant.
pub proof fn lemma_inv_cache_guild_channel(s: CacheView, g: u64, ch: GuildChannel)
    requires
        cache_inv(s),
    ensures
        cache_inv(spec_cache_guild_channel(s, g, ch)),
{
    if s.wants(RESOURCE_CHANNEL) {
        lemma_linked_put(s.channels_guild, s.guild_channels, g, ch.id@, channel_with_guild(ch, g));
        let t = spec_cache_guild_channel(s, g, ch);
        assert forall|c: u64| #[trigger] t.channels_guild.dom().contains(c) implies
            t.channels_guild[c].1.id == c by {
            if c != ch.id@ {
                assert(s.channels_guild.dom().contains(c));
            }
        }
    }
}

/// Deleting a guild channel preserves the cache invariant.
pub proof fn lemma_inv_delete_guild_channel(s: CacheView, c: u64)
    requires
        cache_inv(s),
    ensures
        cache_inv(spec_delete_guild_channel(s, c)),
{
    if s.wants(RESOURCE_CHANNEL) {
        lemma_linked_del(s.channels_guild, s.guild_channels, c);
        let t = spec_delete_guild_channel(s, c);
        assert forall|c2: u64| #[trigger] t.channels_guild.dom().contains(c2) implies
            t.channels_guild[c2].1.id == c2 by {
            assert(s.channels_guild.dom().contains(c2));
        }
    }
}

/// A pins update preserves the cache invariant.
pub proof fn lemma_inv_channel_pins_update(s: CacheView, c: u64, ts: Option<Seq<char>>)
    requires
        cache_inv(s),
    ensures
        cache_inv(spec_channel_pins_update(s, c, ts)),
{
    let t = spec_channel_pins_update(s, c, ts);
    if s.wants(RESOURCE_CHANNEL) && s.channels_guild.dom().contains(c) {
        assert forall|c2: u64| #[trigger] t.channels_guild.dom().contains(c2) implies
            t.channels_guild[c2].1.id == c2 by {
            assert(s.channels_guild.dom().contains(c2));
        }
        assert forall|c2: u64| #[trigger] t.channels_guild.dom().contains(c2) implies
            t.guild_channels.dom().contains(t.channels_guild[c2].0)
            && t.guild_channels[t.channels_guild[c2].0].contains(c2) by {
            assert(s.channels_guild.dom().contains(c2));
            assert(t.channels_guild[c2].0 == s.channels_guild[c2].0);
        }
        assert forall|g2: u64, c2: u64|
            t.guild_channels.dom().contains(g2) && #[trigger] t.guild_channels[g2].contains(
            c2,
        ) implies t.channels_guild.dom().contains(c2) && t.channels_guild[c2].0 == g2 by {
            assert(s.guild_channels[g2].contains(c2));
            assert(s.channels_guild.dom().contains(c2) && s.channels_guild[c2].0 == g2);
        }
    } else if s.wants(RESOURCE_CHANNEL) && !s.channels_guild.dom().contains(c)
        && s.channels_private.dom().contains(c) {
        assert forall|c2: u64| #[trigger] t.channels_private.dom().contains(c2) implies
            t.channels_private[c2].id == c2 by {
            if c2 != c {
                assert(s.channels_private.dom().contains(c2));
            }
        }
    } else if s.wants(RESOURCE_CHANNEL) && !s.channels_guild.dom().contains(c)
        && !s.channels_private.dom().contains(c) && s.groups.dom().contains(c) {
        assert forall|c2: u64| #[trigger] t.groups.dom().contains(c2) implies t.groups[c2].id
            == c2 by {
            if c2 != c {
                assert(s.groups.dom().contains(c2));
            }
        }
    }
}

impl InMemoryCache {
    /// Caches a channel of a guild under the given guild. With the channel
    /// category disabled this is a no-op.
    pub fn cache_guild_channel(&mut self, guild_id: GuildId, channel: GuildChannel)
        requires
            old(self).inv(),
        ensures
            final(self).inv(),
            final(self)@ == spec_cache_guild_channel(old(self)@, guild_id@, channel),
    {
        proof {
            lemma_inv_cache_guild_channel(old(self)@, guild_id@, channel);
        }
        if !self.wants(RESOURCE_CHANNEL) {
            return ;
        }
        let cid = channel.id.get();
        let mut stored = channel;
        stored.guild_id = Some(guild_id);
        proof {
            assert(stored@ =~= channel_with_guild(channel, guild_id@));
        }
        put_guild_item(&mut self.channels_guild, &mut self.guild_channels, guild_id, cid, stored);
        proof {
            assert(self@ =~= spec_cache_guild_channel(old(self)@, guild_id@, channel));
        }
    }

    /// Removes a deleted guild channel. With the channel category disabled
    /// this is a no-op.
    pub fn delete_guild_channel(&mut self, channel_id: ChannelId)
        requires
            old(self).inv(),
        ensures
            final(self).inv(),
            final(self)@ == spec_delete_guild_channel(old(self)@, channel_id@),
    {
        proof {
            lemma_inv_delete_guild_channel(old(self)@, channel_id@);
        }
        if !self.wants(RESOURCE_CHANNEL) {
            return ;
        }
        del_guild_item(&mut self.channels_guild, &mut self.guild_channels, channel_id.get());
        proof {
            assert(self@ =~= spec_delete_guild_channel(old(self)@, channel_id@));
        }
    }

    /// Caches a private channel. With the channel category disabled this is a
    /// no-op.
    pub fn cache_private_channel(&mut self, channel: PrivateChannel)
        requires
            old(self).inv(),
        ensures
            final(self).inv(),
            final(self)@ == spec_cache_private_channel(old(self)@, channel),
    {
        if !self.wants(RESOURCE_CHANNEL) {
            return ;
        }
        let cid = channel.id.get();
        self.channels_private.insert(cid, channel);
        proof {
            assert(self@ =~= spec_cache_private_channel(old(self)@, channel));
            let t = spec_cache_private_channel(old(self)@, channel);
            assert forall|c2: u64| #[trigger] t.channels_private.dom().contains(c2) implies
                t.channels_private[c2].id == c2 by {
                if c2 != channel.id@ {
                    assert(old(self)@.channels_private.dom().contains(c2));
                }
            }
        }
    }

    /// Caches a group channel. With the channel category disabled this is a
    /// no-op.
    pub fn cache_group(&mut self, channel: Group)
        requires
            old(self).inv(),
        ensures
            final(self).inv(),
            final(self)@ == spec_cache_group(old(self)@, channel),
    {
        if !self.wants(RESOURCE_CHANNEL) {
            return ;
        }
        let cid = channel.id.get();
        self.groups.insert(cid, channel);
        proof {
            assert(self@ =~= spec_cache_group(old(self)@, channel));
            let t = spec_cache_group(old(self)@, channel);
            assert forall|c2: u64| #[trigger] t.groups.dom().contains(c2) implies t.groups[c2].id
                == c2 by {
                if c2 != channel.id@ {
                    assert(old(self)@.groups.dom().contains(c2));
                }
            }
        }
    }

    /// Caches any channel carried by a channel event.
    pub fn cache_channel(&mut self, channel: &Channel)
        requires
            old(self).inv(),
        ensures
            final(self).inv(),
            final(self)@ == spec_cache_channel(old(self)@, *channel),
    {
        match channel {
            Channel::Guild(ch) => {
                match ch.guild_id {
                    Some(g) => self.cache_guild_channel(g, ch.clone()),
                    None => {},
                }
            },
            Channel::Private(ch) => self.cache_private_channel(ch.clone()),
            Channel::Group(ch) => self.cache_group(ch.clone()),
        }
        proof {
            assert(self@ =~= spec_cache_channel(old(self)@, *channel));
        }
    }

    /// Removes any deleted channel.
    pub fn delete_channel(&mut self, channel: &Channel)
        requires
            old(self).inv(),
        ensures
            final(self).inv(),
            final(self)@ == spec_delete_channel(old(self)@, *channel),
    {
        match channel {
            Channel::Guild(ch) => self.delete_guild_channel(ch.id),
            Channel::Private(ch) => {
                if self.wants(RESOURCE_CHANNEL) {
                    self.channels_private.remove(ch.id.get());
                }
                proof {
                    assert(self@ =~= spec_delete_private_channel(old(self)@, ch.id@));
                    let t = spec_delete_private_channel(old(self)@, ch.id@);
                    assert forall|c2: u64| #[trigger] t.channels_private.dom().contains(
                        c2,
                    ) implies t.channels_private[c2].id == c2 by {
                        assert(old(self)@.channels_private.dom().contains(c2));
                    }
                }
            },
            Channel::Group(ch) => {
                if self.wants(RESOURCE_CHANNEL) {
                    self.groups.remove(ch.id.get());
                }
                proof {
                    assert(self@ =~= spec_delete_group(old(self)@, ch.id@));
                    let t = spec_delete_group(old(self)@, ch.id@);
                    assert forall|c2: u64| #[trigger] t.groups.dom().contains(c2) implies
                        t.groups[c2].id == c2 by {
                        assert(old(self)@.groups.dom().contains(c2));
                    }
                }
            },
        }
        proof {
            assert(self@ =~= spec_delete_channel(old(self)@, *channel));
        }
    }

    /// Merges a pins update into the matching cached channel; an update for
    /// an unknown channel is dropped.
    pub fn channel_pins_update(&mut self, channel_id: ChannelId, timestamp: &Option<String>)
        requires
            old(self).inv(),
        ensures
            final(self).inv(),
            final(self)@ == spec_channel_pins_update(
                old(self)@,
                channel_id@,
                opt_string_view(*timestamp),
            ),
    {
        proof {
            lemma_inv_channel_pins_update(old(self)@, channel_id@, opt_string_view(*timestamp));
        }
        if !self.wants(RESOURCE_CHANNEL) {
            return ;
        }
        let cid = channel_id.get();
        match self.channels_guild.remove(cid) {
            Some(mut item) => {
                item.data.last_pin_timestamp = clone_opt_string(timestamp);
                self.channels_guild.insert(cid, item);
                proof {
                    assert(self@ =~= spec_channel_pins_update(
                        old(self)@,
                        channel_id@,
                        opt_string_view(*timestamp),
                    ));
                }
                return ;
            },
            None => {},
        }
        match self.channels_private.remove(cid) {
            Some(mut ch) => {
                ch.last_pin_timestamp = clone_opt_string(timestamp);
                self.channels_private.insert(cid, ch);
                proof {
                    assert(self@ =~= spec_channel_pins_update(
                        old(self)@,
                        channel_id@,
                        opt_string_view(*timestamp),
                    ));
                }
                return ;
            },
            None => {},
        }
        match self.groups.remove(cid) {
            Some(mut ch) => {
                ch.last_pin_timestamp = clone_opt_string(timestamp);
                self.groups.insert(cid, ch);
                proof {
                    assert(self@ =~= spec_channel_pins_update(
                        old(self)@,
                        channel_id@,
                        opt_string_view(*timestamp),
                    ));
                }
            },
            None => {
                proof {
                    assert(self@ =~= spec_channel_pins_update(
                        old(self)@,
                        channel_id@,
                        opt_string_view(*timestamp),
                    ));
                }
            },
        }
    }
}

} // verus!
