//! Handlers for guild aggregates: the full-guild snapshot, the partial guild
//! update, the emoji snapshot, guild deletion with its cascade, and the
//! gateway's ready payload.

use vstd::prelude::*;
use crate::cache::CacheView;
use crate::cache::InMemoryCache;
use crate::cache::cache_inv;
use crate::channel::GuildChannelView;
use crate::channel::StageInstanceView;
use crate::config::RESOURCE_CHANNEL;
use crate::config::RESOURCE_EMOJI;
use crate::config::RESOURCE_GUILD;
use crate::config::RESOURCE_ROLE;
use crate::config::RESOURCE_STAGE_INSTANCE;
use crate::event_channel::channel_with_guild;
use crate::event_guild::spec_cache_current_user;
use crate::event_guild::spec_cache_presence;
use crate::event_guild::spec_unavailable_guild;
use crate::event_member::spec_member_chunk;
use crate::gateway::Emoji;
use crate::gateway::Guild;
use crate::gateway::GuildDelete;
use crate::gateway::GuildUpdate;
use crate::gateway::Presence;
use crate::gateway::Ready;
use crate::guild::CachedEmojiView;
use crate::guild::CachedGuildView;
use crate::guild::RoleView;
use crate::guild::UnavailableGuild;
use crate::id::GuildId;
use crate::cache::index_view;
use crate::cache::pair_index_view;
use crate::cache::user_table_view;
use crate::index::drop_guild_items;
use crate::index::drop_pair_items;
use crate::index::pair_index_del;
use crate::index::pairs_with;
use crate::index::lemma_linked_clear;
use crate::index::lemma_linked_drop;
use crate::index::lemma_linked_put_items;
use crate::index::lemma_put_items_entries;
use crate::index::replace_guild_items;
use crate::index::set_at;
use crate::index::spec_drop_items;
use crate::index::spec_replace_items;
use crate::model::CachedPresence;
use crate::util::opt_string_view;

verus! {

/// The cached view of an emoji payload.
pub open spec fn emoji_view_of(e: Emoji) -> CachedEmojiView {
    CachedEmojiView {
        animated: e.animated,
        available: e.available,
        id: e.id@,
        managed: e.managed,
        name: e.name@,
        require_colons: e.require_colons,
        roles: crate::util::id_seq_view(e.roles@),
        user_id: match e.user {
            Some(u) => Some(u.id@),
            None => None,
        },
    }
}

/// The cached view of a guild aggregate's own fields.
pub open spec fn guild_view_of(g: Guild) -> CachedGuildView {
    CachedGuildView {
        description: opt_string_view(g.description),
        icon: opt_string_view(g.icon),
        id: g.id@,
        member_count: g.member_count,
        name: g.name@,
        owner_id: g.owner_id@,
        unavailable: g.unavailable,
    }
}

/// The cache after a presence list was applied, in order.
pub open spec fn spec_presence_chunk(s: CacheView, ps: Seq<Presence>) -> CacheView
    decreases ps.len(),
{
    if ps.len() == 0 {
        s
    } else {
        spec_presence_chunk(
            spec_cache_presence(
                s,
                CachedPresence {
                    guild_id: ps[0].guild_id,
                    status: ps[0].status,
                    user_id: ps[0].user_id,
                },
            ),
            ps.drop_first(),
        )
    }
}

/// The cache after a full guild snapshot: the guild's own fields are stored,
/// each gated child collection is snapshot-replaced, and the members and
/// presences the aggregate carries are merged in.
pub open spec fn spec_guild_create(s: CacheView, guild: Guild) -> CacheView {
    if !s.wants(RESOURCE_GUILD) {
        s
    } else {
        let g = guild.id@;
        let s1 = CacheView {
            guilds: s.guilds.insert(g, guild_view_of(guild)),
            unavailable_guilds: s.unavailable_guilds.remove(g),
            ..s
        };
        let s2 = if s1.wants(RESOURCE_CHANNEL) {
            let r = spec_replace_items(
                s1.channels_guild,
                s1.guild_channels,
                g,
                guild.channels@.map_values(
                    |ch: crate::channel::GuildChannel| (ch.id@, channel_with_guild(ch, g)),
                ),
            );
            CacheView { channels_guild: r.0, guild_channels: r.1, ..s1 }
        } else {
            s1
        };
        let s3 = if s2.wants(RESOURCE_EMOJI) {
            let r = spec_replace_items(
                s2.emojis,
                s2.guild_emojis,
                g,
                guild.emojis@.map_values(|e: Emoji| (e.id@, emoji_view_of(e))),
            );
            CacheView { emojis: r.0, guild_emojis: r.1, ..s2 }
        } else {
            s2
        };
        let s4 = if s3.wants(RESOURCE_ROLE) {
            let r = spec_replace_items(
                s3.roles,
                s3.guild_roles,
                g,
                guild.roles@.map_values(|x: crate::guild::Role| (x.id@, x@)),
            );
            CacheView { roles: r.0, guild_roles: r.1, ..s3 }
        } else {
            s3
        };
        let s5 = if s4.wants(RESOURCE_STAGE_INSTANCE) {
            let r = spec_replace_items(
                s4.stage_instances,
                s4.guild_stage_instances,
                g,
                guild.stage_instances@.map_values(
                    |t: crate::channel::StageInstance|
                        (t.id@, StageInstanceView { guild_id: g, ..t@ }),
                ),
            );
            CacheView { stage_instances: r.0, guild_stage_instances: r.1, ..s4 }
        } else {
            s4
        };
        let s6 = spec_member_chunk(s5, guild.members@);
        spec_presence_chunk(s6, guild.presences@)
    }
}

/// The cache after a partial guild update: the guild's own fields are
/// refreshed; an update for a guild that is not cached is dropped.
pub open spec fn spec_guild_update(s: CacheView, up: GuildUpdate) -> CacheView {
    let g = up.id@;
    if !s.wants(RESOURCE_GUILD) || !s.guilds.dom().contains(g) {
        s
    } else {
        CacheView {
            guilds: s.guilds.insert(
                g,
                CachedGuildView {
                    description: opt_string_view(up.description),
                    icon: opt_string_view(up.icon),
                    id: g,
                    member_count: up.member_count,
                    name: up.name@,
                    owner_id: up.owner_id@,
                    unavailable: s.guilds[g].unavailable,
                },
            ),
            ..s
        }
    }
}

/// The user table after a guild released its references: the guild leaves
/// every dropped user's set, and users that no guild references any longer
/// are dropped.
pub open spec fn unlink_users(
    users: Map<u64, (crate::user::UserView, Set<u64>)>,
    g: u64,
    dropped: Set<u64>,
) -> Map<u64, (crate::user::UserView, Set<u64>)> {
    Map::new(
        |u: u64|
            users.dom().contains(u) && !(dropped.contains(u)
                && users[u].1.remove(g).is_empty()),
        |u: u64|
            if dropped.contains(u) {
                (users[u].0, users[u].1.remove(g))
            } else {
                users[u]
            },
    )
}

/// The voice-channel index after one guild's users left: the guild's pairs
/// leave every channel's set.
pub open spec fn strip_voice_channels(
    vsc: Map<u64, Set<(u64, u64)>>,
    g: u64,
    us: Set<u64>,
) -> Map<u64, Set<(u64, u64)>> {
    Map::new(
        |c: u64| vsc.dom().contains(c),
        |c: u64| vsc[c].difference(pairs_with(g, us)),
    )
}

/// The cache after a guild deletion. A guild that merely became unavailable
/// keeps its children and gains the marker; a deleted guild is removed with
/// every child it owns, and users it alone referenced are dropped.
pub open spec fn spec_guild_delete(s: CacheView, d: GuildDelete) -> CacheView {
    if !s.wants(RESOURCE_GUILD) {
        s
    } else if d.unavailable {
        spec_unavailable_guild(s, d.id@)
    } else {
        let g = d.id@;
        let chan = spec_drop_items(s.channels_guild, s.guild_channels, g);
        let emo = spec_drop_items(s.emojis, s.guild_emojis, g);
        let rol = spec_drop_items(s.roles, s.guild_roles, g);
        let stg = spec_drop_items(s.stage_instances, s.guild_stage_instances, g);
        let member_set = set_at(s.guild_members, g);
        let voice_set = set_at(s.voice_state_guilds, g);
        CacheView {
            guilds: s.guilds.remove(g),
            unavailable_guilds: s.unavailable_guilds.remove(g),
            channels_guild: chan.0,
            guild_channels: chan.1,
            emojis: emo.0,
            guild_emojis: emo.1,
            roles: rol.0,
            guild_roles: rol.1,
            stage_instances: stg.0,
            guild_stage_instances: stg.1,
            integrations: s.integrations.remove_keys(
                pairs_with(g, set_at(s.guild_integrations, g)),
            ),
            guild_integrations: s.guild_integrations.remove(g),
            presences: s.presences.remove_keys(pairs_with(g, set_at(s.guild_presences, g))),
            guild_presences: s.guild_presences.remove(g),
            members: s.members.remove_keys(pairs_with(g, member_set)),
            guild_members: s.guild_members.remove(g),
            users: unlink_users(s.users, g, member_set),
            voice_states: s.voice_states.remove_keys(pairs_with(g, voice_set)),
            voice_state_guilds: s.voice_state_guilds.remove(g),
            voice_state_channels: strip_voice_channels(s.voice_state_channels, g, voice_set),
            ..s
        }
    }
}

/// The cache after the gateway's ready payload: the current user is stored
/// and each listed unavailable guild is marked.
pub open spec fn spec_ready_guilds(s: CacheView, guilds: Seq<UnavailableGuild>) -> CacheView
    decreases guilds.len(),
{
    if guilds.len() == 0 {
        s
    } else {
        spec_ready_guilds(spec_unavailable_guild(s, guilds[0].id@), guilds.drop_first())
    }
}

/// The cache after the gateway's ready payload.
pub open spec fn spec_ready(s: CacheView, r: Ready) -> CacheView {
    spec_ready_guilds(spec_cache_current_user(s, r.user), r.guilds@)
}

/// Replacing a guild's channels with a snapshot preserves the invariant.
proof fn lemma_inv_replace_channels(s: CacheView, g: u64, items: Seq<(u64, GuildChannelView)>)
    requires
        cache_inv(s),
        s.wants(RESOURCE_CHANNEL),
        forall|i: int| 0 <= i < items.len() ==> (#[trigger] items[i]).1.id == items[i].0,
    ensures
        ({
            let r = spec_replace_items(s.channels_guild, s.guild_channels, g, items);
            cache_inv(CacheView { channels_guild: r.0, guild_channels: r.1, ..s })
        }),
{
    let cleared = crate::index::spec_clear_items(s.channels_guild, s.guild_channels, g);
    lemma_linked_clear(s.channels_guild, s.guild_channels, g);
    lemma_linked_put_items(cleared.0, cleared.1, g, items);
    lemma_put_items_entries(cleared.0, cleared.1, g, items);
    let r = spec_replace_items(s.channels_guild, s.guild_channels, g, items);
    assert forall|c: u64| #[trigger] r.0.dom().contains(c) implies r.0[c].1.id == c by {
        if cleared.0.dom().contains(c) && r.0[c] == cleared.0[c] {
            assert(s.channels_guild.dom().contains(c));
        } else {
            let i = choose|i: int|
                0 <= i < items.len() && #[trigger] items[i].0 == c && r.0[c] == (g, items[i].1);
        }
    }
}

/// Replacing a guild's emojis with a snapshot preserves the invariant.
proof fn lemma_inv_replace_emojis(s: CacheView, g: u64, items: Seq<(u64, CachedEmojiView)>)
    requires
        cache_inv(s),
        s.wants(RESOURCE_EMOJI),
        forall|i: int| 0 <= i < items.len() ==> (#[trigger] items[i]).1.id == items[i].0,
    ensures
        ({
            let r = spec_replace_items(s.emojis, s.guild_emojis, g, items);
            cache_inv(CacheView { emojis: r.0, guild_emojis: r.1, ..s })
        }),
{
    let cleared = crate::index::spec_clear_items(s.emojis, s.guild_emojis, g);
    lemma_linked_clear(s.emojis, s.guild_emojis, g);
    lemma_linked_put_items(cleared.0, cleared.1, g, items);
    lemma_put_items_entries(cleared.0, cleared.1, g, items);
    let r = spec_replace_items(s.emojis, s.guild_emojis, g, items);
    assert forall|c: u64| #[trigger] r.0.dom().contains(c) implies r.0[c].1.id == c by {
        if cleared.0.dom().contains(c) && r.0[c] == cleared.0[c] {
            assert(s.emojis.dom().contains(c));
        } else {
            let i = choose|i: int|
                0 <= i < items.len() && #[trigger] items[i].0 == c && r.0[c] == (g, items[i].1);
        }
    }
}

/// Replacing a guild's roles with a snapshot preserves the invariant.
proof fn lemma_inv_replace_roles(s: CacheView, g: u64, items: Seq<(u64, RoleView)>)
    requires
        cache_inv(s),
        s.wants(RESOURCE_ROLE),
        forall|i: int| 0 <= i < items.len() ==> (#[trigger] items[i]).1.id == items[i].0,
    ensures
        ({
            let r = spec_replace_items(s.roles, s.guild_roles, g, items);
            cache_inv(CacheView { roles: r.0, guild_roles: r.1, ..s })
        }),
{
    let cleared = crate::index::spec_clear_items(s.roles, s.guild_roles, g);
    lemma_linked_clear(s.roles, s.guild_roles, g);
    lemma_linked_put_items(cleared.0, cleared.1, g, items);
    lemma_put_items_entries(cleared.0, cleared.1, g, items);
    let r = spec_replace_items(s.roles, s.guild_roles, g, items);
    assert forall|c: u64| #[trigger] r.0.dom().contains(c) implies r.0[c].1.id == c by {
        if cleared.0.dom().contains(c) && r.0[c] == cleared.0[c] {
            assert(s.roles.dom().contains(c));
        } else {
            let i = choose|i: int|
                0 <= i < items.len() && #[trigger] items[i].0 == c && r.0[c] == (g, items[i].1);
        }
    }
}

/// Replacing a guild's stage instances with a snapshot preserves the
/// invariant.
proof fn lemma_inv_replace_stages(s: CacheView, g: u64, items: Seq<(u64, StageInstanceView)>)
    requires
        cache_inv(s),
        s.wants(RESOURCE_STAGE_INSTANCE),
        forall|i: int|
            0 <= i < items.len() ==> (#[trigger] items[i]).1.id == items[i].0 && items[i].1.guild_id
                == g,
    ensures
        ({
            let r = spec_replace_items(s.stage_instances, s.guild_stage_instances, g, items);
            cache_inv(CacheView { stage_instances: r.0, guild_stage_instances: r.1, ..s })
        }),
{
    let cleared = crate::index::spec_clear_items(s.stage_instances, s.guild_stage_instances, g);
    lemma_linked_clear(s.stage_instances, s.guild_stage_instances, g);
    lemma_linked_put_items(cleared.0, cleared.1, g, items);
    lemma_put_items_entries(cleared.0, cleared.1, g, items);
    let r = spec_replace_items(s.stage_instances, s.guild_stage_instances, g, items);
    assert forall|c: u64| #[trigger] r.0.dom().contains(c) implies r.0[c].1.id == c && r.0[c].1.guild_id
        == r.0[c].0 by {
        if cleared.0.dom().contains(c) && r.0[c] == cleared.0[c] {
            assert(s.stage_instances.dom().contains(c));
        } else {
            let i = choose|i: int|
                0 <= i < items.len() && #[trigger] items[i].0 == c && r.0[c] == (g, items[i].1);
        }
    }
}

/// A guild deletion's cascade preserves the cache invariant.
proof fn lemma_inv_guild_delete(s: CacheView, d: GuildDelete)
    requires
        cache_inv(s),
    ensures
        cache_inv(spec_guild_delete(s, d)),
{
    if !s.wants(RESOURCE_GUILD) || d.unavailable {
        if s.wants(RESOURCE_GUILD) {
            let t = spec_unavailable_guild(s, d.id@);
            assert forall|g2: u64| #[trigger] t.guilds.dom().contains(g2) implies t.guilds[g2].id
                == g2 by {
                assert(s.guilds.dom().contains(g2));
            }
        }
        return ;
    }
    let g = d.id@;
    let t = spec_guild_delete(s, d);
    lemma_linked_drop(s.channels_guild, s.guild_channels, g);
    lemma_linked_drop(s.emojis, s.guild_emojis, g);
    lemma_linked_drop(s.roles, s.guild_roles, g);
    lemma_linked_drop(s.stage_instances, s.guild_stage_instances, g);
    let member_set = set_at(s.guild_members, g);
    let voice_set = set_at(s.voice_state_guilds, g);
    // pair-keyed kinds: integrations, presences, members
    assert forall|g2: u64, u2: u64| #[trigger] t.integrations.dom().contains((g2, u2)) implies
        t.guild_integrations.dom().contains(g2) && t.guild_integrations[g2].contains(u2) by {
        assert(s.integrations.dom().contains((g2, u2)));
        assert(!pairs_with(g, set_at(s.guild_integrations, g)).contains((g2, u2)));
        assert(g2 != g) by {
            if g2 == g {
                assert(s.guild_integrations.dom().contains(g) && s.guild_integrations[g].contains(
                    u2,
                ));
            }
        }
    }
    assert forall|g2: u64, u2: u64|
        t.guild_integrations.dom().contains(g2) && #[trigger] t.guild_integrations[g2].contains(
        u2,
    ) implies t.integrations.dom().contains((g2, u2)) by {
        assert(g2 != g);
        assert(s.integrations.dom().contains((g2, u2)));
    }
    assert forall|g2: u64, u2: u64| #[trigger] t.presences.dom().contains((g2, u2)) implies
        t.guild_presences.dom().contains(g2) && t.guild_presences[g2].contains(u2) by {
        assert(s.presences.dom().contains((g2, u2)));
        assert(g2 != g) by {
            if g2 == g {
                assert(s.guild_presences.dom().contains(g) && s.guild_presences[g].contains(u2));
            }
        }
    }
    assert forall|g2: u64, u2: u64|
        t.guild_presences.dom().contains(g2) && #[trigger] t.guild_presences[g2].contains(
        u2,
    ) implies t.presences.dom().contains((g2, u2)) by {
        assert(g2 != g);
        assert(s.presences.dom().contains((g2, u2)));
    }
    assert forall|g2: u64, u2: u64| #[trigger] t.members.dom().contains((g2, u2)) implies
        t.guild_members.dom().contains(g2) && t.guild_members[g2].contains(u2) by {
        assert(s.members.dom().contains((g2, u2)));
        assert(g2 != g) by {
            if g2 == g {
                assert(s.guild_members.dom().contains(g) && s.guild_members[g].contains(u2));
            }
        }
    }
    assert forall|g2: u64, u2: u64|
        t.guild_members.dom().contains(g2) && #[trigger] t.guild_members[g2].contains(
        u2,
    ) implies t.members.dom().contains((g2, u2)) by {
        assert(g2 != g);
        assert(s.members.dom().contains((g2, u2)));
    }
    // users retained while still referenced
    assert forall|g2: u64, u2: u64| #[trigger] t.members.dom().contains((g2, u2)) implies
        t.users.dom().contains(u2) && t.users[u2].1.contains(g2) by {
        assert(s.members.dom().contains((g2, u2)));
        assert(s.users.dom().contains(u2) && s.users[u2].1.contains(g2));
        assert(g2 != g) by {
            if g2 == g {
                assert(s.guild_members.dom().contains(g) && s.guild_members[g].contains(u2));
            }
        }
        if member_set.contains(u2) {
            assert(s.users[u2].1.remove(g).contains(g2));
            assert(!s.users[u2].1.remove(g).is_empty());
        }
    }
    assert forall|u2: u64| #[trigger] t.users.dom().contains(u2) implies t.users[u2].0.id
        == u2 by {
        assert(s.users.dom().contains(u2));
    }
    // voice: table and both indexes stay coherent
    assert forall|g2: u64, u2: u64| #[trigger] t.voice_states.dom().contains((g2, u2)) implies {
        &&& t.voice_states[(g2, u2)].guild_id == Some(g2)
        &&& t.voice_states[(g2, u2)].user_id == u2
        &&& t.voice_states[(g2, u2)].channel_id is Some
        &&& t.voice_state_guilds.dom().contains(g2)
        &&& t.voice_state_guilds[g2].contains(u2)
        &&& t.voice_state_channels.dom().contains(t.voice_states[(g2, u2)].channel_id->0)
        &&& t.voice_state_channels[t.voice_states[(g2, u2)].channel_id->0].contains((g2, u2))
    } by {
        assert(s.voice_states.dom().contains((g2, u2)));
        assert(g2 != g) by {
            if g2 == g {
                assert(s.voice_state_guilds.dom().contains(g) && s.voice_state_guilds[g].contains(
                    u2,
                ));
            }
        }
        let c = s.voice_states[(g2, u2)].channel_id->0;
        assert(s.voice_state_channels.dom().contains(c) && s.voice_state_channels[c].contains(
            (g2, u2),
        ));
        assert(!pairs_with(g, voice_set).contains((g2, u2)));
    }
    assert forall|g2: u64, u2: u64|
        t.voice_state_guilds.dom().contains(g2) && #[trigger] t.voice_state_guilds[g2].contains(
        u2,
    ) implies t.voice_states.dom().contains((g2, u2)) by {
        assert(g2 != g);
        assert(s.voice_states.dom().contains((g2, u2)));
    }
    assert forall|c: u64, p: (u64, u64)|
        t.voice_state_channels.dom().contains(c) && #[trigger] t.voice_state_channels[c].contains(
        p,
    ) implies t.voice_states.dom().contains(p) && t.voice_states[p].channel_id == Some(c) by {
        assert(s.voice_state_channels[c].contains(p) && !pairs_with(g, voice_set).contains(p));
        assert(s.voice_states.dom().contains(p) && s.voice_states[p].channel_id == Some(c));
    }
    // remaining keyed coherence
    assert forall|g2: u64| #[trigger] t.guilds.dom().contains(g2) implies t.guilds[g2].id
        == g2 by {
        assert(s.guilds.dom().contains(g2));
    }
    assert forall|c: u64| #[trigger] t.channels_guild.dom().contains(c) implies
        t.channels_guild[c].1.id == c by {
        assert(s.channels_guild.dom().contains(c));
    }
    assert forall|e: u64| #[trigger] t.emojis.dom().contains(e) implies t.emojis[e].1.id == e by {
        assert(s.emojis.dom().contains(e));
    }
    assert forall|x: u64| #[trigger] t.roles.dom().contains(x) implies t.roles[x].1.id == x by {
        assert(s.roles.dom().contains(x));
    }
    assert forall|x: u64| #[trigger] t.stage_instances.dom().contains(x) implies
        t.stage_instances[x].1.id == x && t.stage_instances[x].1.guild_id
        == t.stage_instances[x].0 by {
        assert(s.stage_instances.dom().contains(x));
    }
    assert forall|g2: u64, i2: u64| #[trigger] t.integrations.dom().contains((g2, i2)) implies
        t.integrations[(g2, i2)].id == i2 by {
        assert(s.integrations.dom().contains((g2, i2)));
    }
    assert forall|g2: u64, u2: u64| #[trigger] t.members.dom().contains((g2, u2)) implies
        t.members[(g2, u2)].guild_id == g2 && t.members[(g2, u2)].user_id == u2 by {
        assert(s.members.dom().contains((g2, u2)));
    }
    assert forall|g2: u64, u2: u64| #[trigger] t.presences.dom().contains((g2, u2)) implies
        t.presences[(g2, u2)].guild_id@ == g2 && t.presences[(g2, u2)].user_id@ == u2 by {
        assert(s.presences.dom().contains((g2, u2)));
    }
}

impl InMemoryCache {
    /// Applies a presence list, in order.
    pub fn cache_presences(&mut self, presences: &Vec<Presence>)
        requires
            old(self).inv(),
        ensures
            final(self).inv(),
            final(self)@ == spec_presence_chunk(old(self)@, presences@),
    {
        proof {
            assert(presences@.skip(0) =~= presences@);
        }
        let n = presences.len();
        for i in 0..n
            invariant
                self.inv(),
                n == presences@.len(),
                spec_presence_chunk(self@, presences@.skip(i as int)) == spec_presence_chunk(
                    old(self)@,
                    presences@,
                ),
        {
            let p = presences[i];
            self.cache_presence(p.guild_id, p.user_id, p.status);
            proof {
                assert(presences@.skip(i as int).drop_first() =~= presences@.skip(i + 1));
                assert(presences@.skip(i as int)[0] == presences@[i as int]);
            }
        }
        proof {
            assert(presences@.skip(n as int) =~= Seq::<Presence>::empty());
        }
    }

    /// Applies a full guild snapshot: the guild's own fields are stored, each
    /// gated child collection is snapshot-replaced so that children the
    /// snapshot no longer lists disappear, and the carried members and
    /// presences are merged in. With the guild category disabled this is a
    /// no-op.
    pub fn guild_create(&mut self, guild: &Guild)
        requires
            old(self).inv(),
        ensures
            final(self).inv(),
            final(self)@ == spec_guild_create(old(self)@, *guild),
    {
        if !self.wants(RESOURCE_GUILD) {
            return ;
        }
        let gid = guild.id;
        let g = gid.get();
        let cached = guild.to_cached();
        proof {
            assert(cached@ =~= guild_view_of(*guild));
        }
        self.guilds.insert(g, cached);
        self.unavailable_guilds.remove(g);
        let ghost s1 = CacheView {
            guilds: old(self)@.guilds.insert(g, guild_view_of(*guild)),
            unavailable_guilds: old(self)@.unavailable_guilds.remove(g),
            ..old(self)@
        };
        proof {
            assert(self@ =~= s1);
            assert forall|g2: u64| #[trigger] s1.guilds.dom().contains(g2) implies s1.guilds[g2].id
                == g2 by {
                if g2 != g {
                    assert(old(self)@.guilds.dom().contains(g2));
                }
            }
            assert(cache_inv(s1));
        }
        if self.wants(RESOURCE_CHANNEL) {
            let mut items: Vec<(u64, crate::channel::GuildChannel)> = Vec::new();
            let n = guild.channels.len();
            for i in 0..n
                invariant
                    n == guild.channels@.len(),
                    items@.len() == i,
                    forall|j: int|
                        0 <= j < i ==> (#[trigger] items@[j]).0 == guild.channels@[j].id@
                            && items@[j].1@ == channel_with_guild(guild.channels@[j], gid@),
            {
                let mut ch = guild.channels[i].clone();
                ch.guild_id = Some(gid);
                proof {
                    assert(ch@ =~= channel_with_guild(guild.channels@[i as int], gid@));
                }
                items.push((ch.id.get(), ch));
            }
            proof {
                assert(items@.map_values(|p: (u64, crate::channel::GuildChannel)| (p.0, p.1@))
                    =~= guild.channels@.map_values(
                    |ch: crate::channel::GuildChannel| (ch.id@, channel_with_guild(ch, gid@)),
                ));
                lemma_inv_replace_channels(
                    s1,
                    g,
                    guild.channels@.map_values(
                        |ch: crate::channel::GuildChannel| (ch.id@, channel_with_guild(ch, gid@)),
                    ),
                );
            }
            replace_guild_items(&mut self.channels_guild, &mut self.guild_channels, gid, items);
        }
        let ghost s2 = if s1.wants(RESOURCE_CHANNEL) {
            let r = spec_replace_items(
                s1.channels_guild,
                s1.guild_channels,
                g,
                guild.channels@.map_values(
                    |ch: crate::channel::GuildChannel| (ch.id@, channel_with_guild(ch, gid@)),
                ),
            );
            CacheView { channels_guild: r.0, guild_channels: r.1, ..s1 }
        } else {
            s1
        };
        proof {
            assert(self@ =~= s2);
            assert(cache_inv(s2));
        }
        if self.wants(RESOURCE_EMOJI) {
            let mut items: Vec<(u64, crate::guild::CachedEmoji)> = Vec::new();
            let n = guild.emojis.len();
            for i in 0..n
                invariant
                    n == guild.emojis@.len(),
                    items@.len() == i,
                    forall|j: int|
                        0 <= j < i ==> (#[trigger] items@[j]).0 == guild.emojis@[j].id@
                            && items@[j].1@ == emoji_view_of(guild.emojis@[j]),
            {
                let e = &guild.emojis[i];
                let cached = crate::guild::CachedEmoji {
                    animated: e.animated,
                    available: e.available,
                    id: e.id,
                    managed: e.managed,
                    name: e.name.clone(),
                    require_colons: e.require_colons,
                    roles: crate::util::clone_vec_copy(&e.roles),
                    user_id: match &e.user {
                        Some(u) => Some(u.id),
                        None => None,
                    },
                };
                proof {
                    assert(cached@ =~= emoji_view_of(guild.emojis@[i as int]));
                }
                items.push((e.id.get(), cached));
            }
            proof {
                assert(items@.map_values(|p: (u64, crate::guild::CachedEmoji)| (p.0, p.1@))
                    =~= guild.emojis@.map_values(|e: Emoji| (e.id@, emoji_view_of(e))));
                lemma_inv_replace_emojis(
                    s2,
                    g,
                    guild.emojis@.map_values(|e: Emoji| (e.id@, emoji_view_of(e))),
                );
            }
            replace_guild_items(&mut self.emojis, &mut self.guild_emojis, gid, items);
        }
        let ghost s3 = if s2.wants(RESOURCE_EMOJI) {
            let r = spec_replace_items(
                s2.emojis,
                s2.guild_emojis,
                g,
                guild.emojis@.map_values(|e: Emoji| (e.id@, emoji_view_of(e))),
            );
            CacheView { emojis: r.0, guild_emojis: r.1, ..s2 }
        } else {
            s2
        };
        proof {
            assert(self@ =~= s3);
            assert(cache_inv(s3));
        }
        if self.wants(RESOURCE_ROLE) {
            let mut items: Vec<(u64, crate::guild::Role)> = Vec::new();
            let n = guild.roles.len();
            for i in 0..n
                invariant
                    n == guild.roles@.len(),
                    items@.len() == i,
                    forall|j: int|
                        0 <= j < i ==> (#[trigger] items@[j]).0 == guild.roles@[j].id@
                            && items@[j].1@ == guild.roles@[j]@,
            {
                let x = guild.roles[i].clone();
                items.push((x.id.get(), x));
            }
            proof {
                assert(items@.map_values(|p: (u64, crate::guild::Role)| (p.0, p.1@))
                    =~= guild.roles@.map_values(|x: crate::guild::Role| (x.id@, x@)));
                lemma_inv_replace_roles(
                    s3,
                    g,
                    guild.roles@.map_values(|x: crate::guild::Role| (x.id@, x@)),
                );
            }
            replace_guild_items(&mut self.roles, &mut self.guild_roles, gid, items);
        }
        let ghost s4 = if s3.wants(RESOURCE_ROLE) {
            let r = spec_replace_items(
                s3.roles,
                s3.guild_roles,
                g,
                guild.roles@.map_values(|x: crate::guild::Role| (x.id@, x@)),
            );
            CacheView { roles: r.0, guild_roles: r.1, ..s3 }
        } else {
            s3
        };
        proof {
            assert(self@ =~= s4);
            assert(cache_inv(s4));
        }
        if self.wants(RESOURCE_STAGE_INSTANCE) {
            let mut items: Vec<(u64, crate::channel::StageInstance)> = Vec::new();
            let n = guild.stage_instances.len();
            for i in 0..n
                invariant
                    n == guild.stage_instances@.len(),
                    items@.len() == i,
                    forall|j: int|
                        0 <= j < i ==> (#[trigger] items@[j]).0 == guild.stage_instances@[j].id@
                            && items@[j].1@ == (StageInstanceView {
                            guild_id: gid@,
                            ..guild.stage_instances@[j]@
                        }),
            {
                let mut x = guild.stage_instances[i].clone();
                x.guild_id = gid;
                proof {
                    assert(x@ =~= StageInstanceView {
                        guild_id: gid@,
                        ..guild.stage_instances@[i as int]@
                    });
                }
                items.push((x.id.get(), x));
            }
            proof {
                assert(items@.map_values(|p: (u64, crate::channel::StageInstance)| (p.0, p.1@))
                    =~= guild.stage_instances@.map_values(
                    |t: crate::channel::StageInstance|
                        (t.id@, StageInstanceView { guild_id: gid@, ..t@ }),
                ));
                lemma_inv_replace_stages(
                    s4,
                    g,
                    guild.stage_instances@.map_values(
                        |t: crate::channel::StageInstance|
                            (t.id@, StageInstanceView { guild_id: gid@, ..t@ }),
                    ),
                );
            }
            replace_guild_items(
                &mut self.stage_instances,
                &mut self.guild_stage_instances,
                gid,
                items,
            );
        }
        let ghost s5 = if s4.wants(RESOURCE_STAGE_INSTANCE) {
            let r = spec_replace_items(
                s4.stage_instances,
                s4.guild_stage_instances,
                g,
                guild.stage_instances@.map_values(
                    |t: crate::channel::StageInstance|
                        (t.id@, StageInstanceView { guild_id: gid@, ..t@ }),
                ),
            );
            CacheView { stage_instances: r.0, guild_stage_instances: r.1, ..s4 }
        } else {
            s4
        };
        proof {
            assert(self@ =~= s5);
        }
        self.member_chunk(&guild.members);
        self.cache_presences(&guild.presences);
    }

    /// Merges a partial guild update into the stored guild; an update for a
    /// guild that is not cached is dropped, never fabricated.
    pub fn guild_update(&mut self, up: &GuildUpdate)
        requires
            old(self).inv(),
        ensures
            final(self).inv(),
            final(self)@ == spec_guild_update(old(self)@, *up),
    {
        if !self.wants(RESOURCE_GUILD) {
            return ;
        }
        let g = up.id.get();
        match self.guilds.remove(g) {
            Some(mut cached) => {
                cached.description = crate::util::clone_opt_string(&up.description);
                cached.icon = crate::util::clone_opt_string(&up.icon);
                cached.member_count = up.member_count;
                cached.name = up.name.clone();
                cached.owner_id = up.owner_id;
                self.guilds.insert(g, cached);
                proof {
                    assert(self@ =~= spec_guild_update(old(self)@, *up));
                    let t = spec_guild_update(old(self)@, *up);
                    assert forall|g2: u64| #[trigger] t.guilds.dom().contains(g2) implies
                        t.guilds[g2].id == g2 by {
                        assert(old(self)@.guilds.dom().contains(g2));
                    }
                }
            },
            None => {
                proof {
                    assert(self@ =~= old(self)@);
                }
            },
        }
    }

    /// Replaces a guild's emoji collection with the snapshot an emoji update
    /// carries. With the emoji category disabled this is a no-op.
    pub fn guild_emojis_update(&mut self, guild_id: GuildId, emojis: &Vec<Emoji>)
        requires
            old(self).inv(),
        ensures
            final(self).inv(),
            final(self)@ == ({
                let s = old(self)@;
                if !s.wants(RESOURCE_EMOJI) {
                    s
                } else {
                    let r = spec_replace_items(
                        s.emojis,
                        s.guild_emojis,
                        guild_id@,
                        emojis@.map_values(|e: Emoji| (e.id@, emoji_view_of(e))),
                    );
                    CacheView { emojis: r.0, guild_emojis: r.1, ..s }
                }
            }),
    {
        if !self.wants(RESOURCE_EMOJI) {
            return ;
        }
        let mut items: Vec<(u64, crate::guild::CachedEmoji)> = Vec::new();
        let n = emojis.len();
        for i in 0..n
            invariant
                n == emojis@.len(),
                items@.len() == i,
                forall|j: int|
                    0 <= j < i ==> (#[trigger] items@[j]).0 == emojis@[j].id@ && items@[j].1@
                        == emoji_view_of(emojis@[j]),
        {
            let e = &emojis[i];
            let cached = crate::guild::CachedEmoji {
                animated: e.animated,
                available: e.available,
                id: e.id,
                managed: e.managed,
                name: e.name.clone(),
                require_colons: e.require_colons,
                roles: crate::util::clone_vec_copy(&e.roles),
                user_id: match &e.user {
                    Some(u) => Some(u.id),
                    None => None,
                },
            };
            proof {
                assert(cached@ =~= emoji_view_of(emojis@[i as int]));
            }
            items.push((e.id.get(), cached));
        }
        proof {
            assert(items@.map_values(|p: (u64, crate::guild::CachedEmoji)| (p.0, p.1@))
                =~= emojis@.map_values(|e: Emoji| (e.id@, emoji_view_of(e))));
            lemma_inv_replace_emojis(
                old(self)@,
                guild_id@,
                emojis@.map_values(|e: Emoji| (e.id@, emoji_view_of(e))),
            );
        }
        replace_guild_items(&mut self.emojis, &mut self.guild_emojis, guild_id, items);
        proof {
            assert(self@ =~= ({
                let s = old(self)@;
                let r = spec_replace_items(
                    s.emojis,
                    s.guild_emojis,
                    guild_id@,
                    emojis@.map_values(|e: Emoji| (e.id@, emoji_view_of(e))),
                );
                CacheView { emojis: r.0, guild_emojis: r.1, ..s }
            }));
        }
    }

    /// Applies the gateway's ready payload: the current user is stored and
    /// each listed unavailable guild is marked.
    pub fn ready(&mut self, payload: &Ready)
        requires
            old(self).inv(),
        ensures
            final(self).inv(),
            final(self)@ == spec_ready(old(self)@, *payload),
    {
        self.cache_current_user(payload.user.clone());
        proof {
            assert(spec_cache_current_user(old(self)@, payload.user) =~= self@);
            assert(payload.guilds@.skip(0) =~= payload.guilds@);
        }
        let ghost mid = self@;
        let n = payload.guilds.len();
        for i in 0..n
            invariant
                self.inv(),
                n == payload.guilds@.len(),
                spec_ready_guilds(self@, payload.guilds@.skip(i as int)) == spec_ready_guilds(
                    mid,
                    payload.guilds@,
                ),
        {
            self.unavailable_guild(payload.guilds[i].id);
            proof {
                assert(payload.guilds@.skip(i as int).drop_first() =~= payload.guilds@.skip(i + 1));
                assert(payload.guilds@.skip(i as int)[0] == payload.guilds@[i as int]);
            }
        }
        proof {
            assert(payload.guilds@.skip(n as int) =~= Seq::<UnavailableGuild>::empty());
        }
    }

    /// Removes a deleted guild together with every child it owns; users the
    /// guild alone referenced are dropped. A guild that merely became
    /// unavailable keeps its children and gains the marker. With the guild
    /// category disabled this is a no-op.
    pub fn guild_delete(&mut self, payload: GuildDelete)
        requires
            old(self).inv(),
        ensures
            final(self).inv(),
            final(self)@ == spec_guild_delete(old(self)@, payload),
    {
        proof {
            lemma_inv_guild_delete(old(self)@, payload);
        }
        if !self.wants(RESOURCE_GUILD) {
            return ;
        }
        if payload.unavailable {
            self.unavailable_guild(payload.id);
            return ;
        }
        let g = payload.id.get();
        self.guilds.remove(g);
        self.unavailable_guilds.remove(g);
        drop_guild_items(&mut self.channels_guild, &mut self.guild_channels, g);
        drop_guild_items(&mut self.emojis, &mut self.guild_emojis, g);
        drop_guild_items(&mut self.roles, &mut self.guild_roles, g);
        drop_guild_items(&mut self.stage_instances, &mut self.guild_stage_instances, g);
        drop_pair_items(&mut self.integrations, &mut self.guild_integrations, g);
        drop_pair_items(&mut self.presences, &mut self.guild_presences, g);
        drop_members_cascade(&mut self.members, &mut self.guild_members, &mut self.users, g);
        proof {
            let s0 = old(self)@;
            assert forall|p: (u64, u64)| #[trigger] self.voice_states@.dom().contains(p) implies {
                &&& self.voice_states@[p]@.channel_id is Some
                &&& pair_index_view(self.voice_state_channels@).dom().contains(
                    self.voice_states@[p]@.channel_id->0,
                )
                &&& pair_index_view(self.voice_state_channels@)[self.voice_states@[p]@.channel_id->0].contains(
                    p,
                )
            } by {
                assert(p == (p.0, p.1));
                assert(s0.voice_states.dom().contains((p.0, p.1)));
                assert(s0.voice_states[(p.0, p.1)] == self.voice_states@[p]@);
            }
            assert forall|c: u64, p: (u64, u64)|
                pair_index_view(self.voice_state_channels@).dom().contains(c) && #[trigger]
                pair_index_view(self.voice_state_channels@)[c].contains(p) implies
                self.voice_states@.dom().contains(p) && self.voice_states@[p]@.channel_id == Some(
                c,
            ) by {
                assert(s0.voice_state_channels.dom().contains(c)
                    && s0.voice_state_channels[c].contains(p));
                assert(s0.voice_states.dom().contains(p) && s0.voice_states[p].channel_id == Some(
                    c,
                ));
            }
            assert forall|u: u64| #[trigger]
                set_at(index_view(self.voice_state_guilds@), g).contains(
                u,
            ) implies self.voice_states@.dom().contains((g, u)) by {
                assert(index_view(self.voice_state_guilds@).dom().contains(g)
                    && index_view(self.voice_state_guilds@)[g].contains(u));
                assert(s0.voice_state_guilds.dom().contains(g) && s0.voice_state_guilds[g].contains(
                    u,
                ));
                assert(s0.voice_states.dom().contains((g, u)));
            }
            assert(voice_cascade_coherent(
                self.voice_states@,
                index_view(self.voice_state_guilds@),
                pair_index_view(self.voice_state_channels@),
                g,
            ));
        }
        drop_voice_cascade(
            &mut self.voice_states,
            &mut self.voice_state_guilds,
            &mut self.voice_state_channels,
            g,
        );
        proof {
            assert(self@ =~= spec_guild_delete(old(self)@, payload));
        }
    }
}




/// The voice tables agree: every stored state names a channel whose set lists
/// it, every listed pair is stored with that channel, and every user the
/// guild's set lists has a stored state.
pub open spec fn voice_cascade_coherent(
    states: Map<(u64, u64), crate::voice::VoiceState>,
    guilds_ix: Map<u64, Set<u64>>,
    channels_ix: Map<u64, Set<(u64, u64)>>,
    g: u64,
) -> bool {
    &&& forall|p: (u64, u64)| #[trigger]
        states.dom().contains(p) ==> states[p]@.channel_id is Some && channels_ix.dom().contains(
            states[p]@.channel_id->0,
        ) && channels_ix[states[p]@.channel_id->0].contains(p)
    &&& forall|c: u64, p: (u64, u64)|
        channels_ix.dom().contains(c) && #[trigger] channels_ix[c].contains(p)
            ==> states.dom().contains(p) && states[p]@.channel_id == Some(c)
    &&& forall|u: u64| #[trigger]
        set_at(guilds_ix, g).contains(u) ==> states.dom().contains((g, u))
}


/// Processing one more user of the dropped set advances the pointwise
/// description of the user table.
proof fn lemma_unlink_step(
    orig: Map<u64, (crate::user::UserView, Set<u64>)>,
    pre: Map<u64, (crate::user::UserView, Set<u64>)>,
    post: Map<u64, (crate::user::UserView, Set<u64>)>,
    g: u64,
    u: u64,
    dropped0: Set<u64>,
)
    requires
        pre == unlink_users(orig, g, dropped0),
        !dropped0.contains(u),
        post == (if pre.dom().contains(u) {
            if pre[u].1.remove(g).is_empty() {
                pre.remove(u)
            } else {
                pre.insert(u, (pre[u].0, pre[u].1.remove(g)))
            }
        } else {
            pre
        }),
    ensures
        post == unlink_users(orig, g, dropped0.insert(u)),
{
    let target = unlink_users(orig, g, dropped0.insert(u));
    assert forall|x: u64| #[trigger] post.dom().contains(x) implies target.dom().contains(x)
        && post[x] == target[x] by {
        if x != u {
            assert(pre.dom().contains(x) && post[x] == pre[x]);
            assert(unlink_users(orig, g, dropped0).dom().contains(x));
        } else {
            assert(pre.dom().contains(u) && !pre[u].1.remove(g).is_empty());
            assert(pre[u] == orig[u]);
        }
    }
    assert forall|x: u64| #[trigger] target.dom().contains(x) implies post.dom().contains(x) by {
        if x != u {
            assert(unlink_users(orig, g, dropped0).dom().contains(x));
        } else {
            assert(orig.dom().contains(u) && !orig[u].1.remove(g).is_empty());
            assert(pre.dom().contains(u) && pre[u] == orig[u]);
        }
    }
    assert(post =~= target);
}

/// Removes every member of one guild, releasing each user's reference; users
/// that no guild references any longer are dropped.
fn drop_members_cascade(
    members: &mut crate::store::PairMap<crate::guild::CachedMember>,
    index: &mut crate::store::IdMap<crate::store::IdSet>,
    users: &mut crate::store::IdMap<crate::cache::UserEntry>,
    g: u64,
)
    requires
        old(members).wf(),
        crate::index::index_wf(old(index)),
        old(users).wf(),
        forall|u: u64| #[trigger] old(users)@.dom().contains(u) ==> old(users)@[u].guilds.wf(),
    ensures
        final(members).wf(),
        crate::index::index_wf(final(index)),
        final(users).wf(),
        forall|u: u64| #[trigger] final(users)@.dom().contains(u) ==> final(users)@[u].guilds.wf(),
        crate::cache::pair_table_view(final(members)@) == crate::cache::pair_table_view(
            old(members)@,
        ).remove_keys(pairs_with(g, set_at(index_view(old(index)@), g))),
        index_view(final(index)@) == index_view(old(index)@).remove(g),
        user_table_view(final(users)@) == unlink_users(
            user_table_view(old(users)@),
            g,
            set_at(index_view(old(index)@), g),
        ),
{
    let mset = match index.remove(g) {
        Some(s) => s,
        None => crate::store::IdSet::new(),
    };
    let n = mset.len();
    proof {
        mset.lemma_seq_view();
        assert(crate::cache::pair_table_view(members@) =~= crate::cache::pair_table_view(
            old(members)@,
        ).remove_keys(pairs_with(g, mset.seq().take(0).to_set())));
        assert(user_table_view(users@) =~~= unlink_users(
            user_table_view(old(users)@),
            g,
            mset.seq().take(0).to_set(),
        ));
        assert(index_view(index@) =~= index_view(old(index)@).remove(g));
    }
    for i in 0..n
        invariant
            n == mset.seq().len(),
            mset.wf(),
            members.wf(),
            users.wf(),
            forall|u: u64| #[trigger] users@.dom().contains(u) ==> users@[u].guilds.wf(),
            mset@ == mset.seq().to_set(),
            mset.seq().no_duplicates(),
            crate::cache::pair_table_view(members@) == crate::cache::pair_table_view(
                old(members)@,
            ).remove_keys(pairs_with(g, mset.seq().take(i as int).to_set())),
            user_table_view(users@) == unlink_users(
                user_table_view(old(users)@),
                g,
                mset.seq().take(i as int).to_set(),
            ),
    {
        let u = mset.at(i);
        proof {
            crate::index::lemma_take_to_set_step(mset.seq(), i as int);
            assert(!mset.seq().take(i as int).to_set().contains(mset.seq()[i as int])) by {
                if mset.seq().take(i as int).to_set().contains(mset.seq()[i as int]) {
                    let j = choose|j: int|
                        0 <= j < mset.seq().take(i as int).len() && (#[trigger] mset.seq().take(
                            i as int,
                        )[j]) == mset.seq()[i as int];
                    assert(mset.seq()[j] == mset.seq()[i as int]);
                }
            }
        }
        let ghost pre_members = members@;
        members.remove((g, u));
        proof {
            assert(members@ == pre_members.remove((g, u)));
            assert(crate::cache::pair_table_view(members@) =~= crate::cache::pair_table_view(
                pre_members,
            ).remove((g, u)));
            let lhs = crate::cache::pair_table_view(old(members)@).remove_keys(
                pairs_with(g, mset.seq().take(i as int).to_set()),
            ).remove((g, u));
            let rhs = crate::cache::pair_table_view(old(members)@).remove_keys(
                pairs_with(g, mset.seq().take(i + 1).to_set()),
            );
            assert(crate::cache::pair_table_view(members@) == lhs);
            assert forall|p: (u64, u64)|
                #![trigger lhs.dom().contains(p), rhs.dom().contains(p)]
                lhs.dom().contains(p) <==> rhs.dom().contains(p) by {
                assert(p == (p.0, p.1));
            }
            assert(lhs =~~= rhs);
        }
        let ghost pre_users = users@;
        let ghost target = unlink_users(
            user_table_view(old(users)@),
            g,
            mset.seq().take(i + 1).to_set(),
        );
        let ghost pre_uv = user_table_view(pre_users);
        let ghost dropped0 = mset.seq().take(i as int).to_set();
        match users.remove(u) {
            Some(mut entry) => {
                let ghost entry_guilds0 = entry.guilds@;
                proof {
                    assert(pre_uv.dom().contains(u));
                    assert(pre_uv[u] == (entry.user@, entry.guilds@));
                }
                entry.guilds.remove(g);
                if !entry.guilds.is_empty() {
                    users.insert(u, entry);
                    proof {
                        assert(user_table_view(users@) =~= pre_uv.insert(
                            u,
                            (pre_uv[u].0, pre_uv[u].1.remove(g)),
                        ));
                        lemma_unlink_step(
                            user_table_view(old(users)@),
                            pre_uv,
                            user_table_view(users@),
                            g,
                            u,
                            dropped0,
                        );
                    }
                } else {
                    proof {
                        assert(user_table_view(users@) =~= pre_uv.remove(u));
                        lemma_unlink_step(
                            user_table_view(old(users)@),
                            pre_uv,
                            user_table_view(users@),
                            g,
                            u,
                            dropped0,
                        );
                    }
                }
            },
            None => {
                proof {
                    assert(!pre_uv.dom().contains(u));
                    assert(user_table_view(users@) =~= pre_uv);
                    lemma_unlink_step(
                        user_table_view(old(users)@),
                        pre_uv,
                        user_table_view(users@),
                        g,
                        u,
                        dropped0,
                    );
                }
            },
        }
        proof {
            assert(user_table_view(users@) == target);
        }
    }
    proof {
        assert(mset.seq().take(n as int) =~= mset.seq());
    }
}

/// Removes every voice state of one guild, unlinking each from its channel's
/// set.
fn drop_voice_cascade(
    states: &mut crate::store::PairMap<crate::voice::VoiceState>,
    guilds_ix: &mut crate::store::IdMap<crate::store::IdSet>,
    channels_ix: &mut crate::store::IdMap<crate::store::PairSet>,
    g: u64,
)
    requires
        old(states).wf(),
        crate::index::index_wf(old(guilds_ix)),
        crate::index::pair_index_wf(old(channels_ix)),
        voice_cascade_coherent(
            old(states)@,
            index_view(old(guilds_ix)@),
            pair_index_view(old(channels_ix)@),
            g,
        ),
    ensures
        final(states).wf(),
        crate::index::index_wf(final(guilds_ix)),
        crate::index::pair_index_wf(final(channels_ix)),
        crate::cache::pair_table_view(final(states)@) == crate::cache::pair_table_view(
            old(states)@,
        ).remove_keys(pairs_with(g, set_at(index_view(old(guilds_ix)@), g))),
        index_view(final(guilds_ix)@) == index_view(old(guilds_ix)@).remove(g),
        pair_index_view(final(channels_ix)@) == strip_voice_channels(
            pair_index_view(old(channels_ix)@),
            g,
            set_at(index_view(old(guilds_ix)@), g),
        ),
{
    let vset = match guilds_ix.remove(g) {
        Some(s) => s,
        None => crate::store::IdSet::new(),
    };
    let n = vset.len();
    proof {
        vset.lemma_seq_view();
        assert(crate::cache::pair_table_view(states@) =~= crate::cache::pair_table_view(
            old(states)@,
        ).remove_keys(pairs_with(g, vset.seq().take(0).to_set())));
        assert(pair_index_view(channels_ix@) =~~= strip_voice_channels(
            pair_index_view(old(channels_ix)@),
            g,
            vset.seq().take(0).to_set(),
        ));
        assert(index_view(guilds_ix@) =~= index_view(old(guilds_ix)@).remove(g));
    }
    for i in 0..n
        invariant
            n == vset.seq().len(),
            vset.wf(),
            states.wf(),
            crate::index::pair_index_wf(channels_ix),
            voice_cascade_coherent(
                old(states)@,
                index_view(old(guilds_ix)@),
                pair_index_view(old(channels_ix)@),
                g,
            ),
            vset@ == vset.seq().to_set(),
            vset.seq().no_duplicates(),
            vset@ == set_at(index_view(old(guilds_ix)@), g),
            crate::cache::pair_table_view(states@) == crate::cache::pair_table_view(
                old(states)@,
            ).remove_keys(pairs_with(g, vset.seq().take(i as int).to_set())),
            pair_index_view(channels_ix@) == strip_voice_channels(
                pair_index_view(old(channels_ix)@),
                g,
                vset.seq().take(i as int).to_set(),
            ),
    {
        let u = vset.at(i);
        proof {
            assert(!vset.seq().take(i as int).to_set().contains(vset.seq()[i as int])) by {
                if vset.seq().take(i as int).to_set().contains(vset.seq()[i as int]) {
                    let j = choose|j: int|
                        0 <= j < vset.seq().take(i as int).len() && (#[trigger] vset.seq().take(
                            i as int,
                        )[j]) == vset.seq()[i as int];
                    assert(vset.seq()[j] == vset.seq()[i as int]);
                }
            }
            assert(set_at(index_view(old(guilds_ix)@), g).contains(u));
            assert(old(states)@.dom().contains((g, u)));
            assert(crate::cache::pair_table_view(states@).dom().contains((g, u)));
            assert(crate::cache::pair_table_view(states@)[(g, u)] == states@[(g, u)]@);
            assert(crate::cache::pair_table_view(states@)[(g, u)] == crate::cache::pair_table_view(
                old(states)@,
            )[(g, u)]);
            assert(states@[(g, u)]@ == old(states)@[(g, u)]@);
        }
        let ghost pre_states = states@;
        let vs = match states.remove((g, u)) {
            Some(v) => v,
            None => {
                proof {
                    assert(false);
                }
                return ;
            },
        };
        proof {
            assert(vs == pre_states[(g, u)]);
            assert(vs@ == old(states)@[(g, u)]@);
        }
        let c = match vs.channel_id {
            Some(c) => c,
            None => {
                proof {
                    assert(vs@ == old(states)@[(g, u)]@);
                    assert(false);
                }
                return ;
            },
        };
        proof {
            assert(vs@ == old(states)@[(g, u)]@);
            assert(old(states)@[(g, u)]@.channel_id == Some(c@));
        }
        let ghost pre_channels = pair_index_view(channels_ix@);
        pair_index_del(channels_ix, c.get(), (g, u));
        proof {
            crate::index::lemma_take_to_set_step(vset.seq(), i as int);
            assert(states@ == pre_states.remove((g, u)));
            assert(crate::cache::pair_table_view(states@) =~= crate::cache::pair_table_view(
                pre_states,
            ).remove((g, u)));
            assert(crate::cache::pair_table_view(states@) =~~= crate::cache::pair_table_view(
                old(states)@,
            ).remove_keys(pairs_with(g, vset.seq().take(i + 1).to_set())));
            let stripped = strip_voice_channels(
                pair_index_view(old(channels_ix)@),
                g,
                vset.seq().take(i + 1).to_set(),
            );
            assert(pair_index_view(old(channels_ix)@).dom().contains(c@));
            assert forall|c2: u64| #[trigger] stripped.dom().contains(c2) implies
                pair_index_view(channels_ix@).dom().contains(c2) && pair_index_view(
                channels_ix@,
            )[c2] =~= stripped[c2] by {
                assert(pre_channels.dom().contains(c2));
                assert(pre_channels[c2] == pair_index_view(old(channels_ix)@)[c2].difference(
                    pairs_with(g, vset.seq().take(i as int).to_set()),
                ));
                if c2 != c@ {
                    assert(pair_index_view(channels_ix@)[c2] == pre_channels[c2]);
                    assert forall|p: (u64, u64)| #[trigger] pair_index_view(
                        old(channels_ix)@,
                    )[c2].contains(p) implies p != (g, u) by {
                        if p == (g, u) {
                            assert(old(states)@[p]@.channel_id == Some(c2));
                            assert(old(states)@[p]@.channel_id == Some(c@));
                        }
                    }
                    assert(pair_index_view(channels_ix@)[c2] =~= stripped[c2]);
                } else {
                    assert(pair_index_view(channels_ix@)[c2] == pre_channels[c2].remove((g, u)));
                    assert(pair_index_view(channels_ix@)[c2] =~= stripped[c2]);
                }
            }
            assert(pair_index_view(channels_ix@) =~~= stripped);
        }
    }
    proof {
        assert(vset.seq().take(n as int) =~= vset.seq());
    }
}

} // verus!
