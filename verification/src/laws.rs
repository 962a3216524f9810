//! Laws of the cache: properties that relate several operations, proved once
//! and for all over the cache's view.

use vstd::prelude::*;
use crate::cache::CacheView;
use crate::cache::cache_inv;
use crate::channel::GuildChannel;
use crate::config::RESOURCE_CHANNEL;
use crate::config::RESOURCE_GUILD;
use crate::config::RESOURCE_MEMBER;
use crate::config::RESOURCE_PRESENCE;
use crate::config::RESOURCE_ROLE;
use crate::event_aggregate::spec_guild_create;
use crate::event_aggregate::spec_guild_delete;
use crate::event_aggregate::spec_presence_chunk;
use crate::event_channel::channel_with_guild;
use crate::event_channel::spec_cache_guild_channel;
use crate::event_guild::spec_cache_presence;
use crate::event_guild::spec_cache_role;
use crate::event_member::spec_member_add;
use crate::event_member::spec_member_chunk;
use crate::event_member::spec_member_update;
use crate::event_message::spec_cache_message;
use crate::event_message::window_at;
use crate::gateway::Guild;
use crate::gateway::GuildDelete;
use crate::gateway::Member;
use crate::gateway::MemberUpdate;
use crate::gateway::Message;
use crate::gateway::Presence;
use crate::index::set_at;
use crate::index::spec_clear_items;
use crate::index::spec_put_item;
use crate::index::spec_put_items;
use crate::index::spec_replace_items;
use crate::model::CachedPresence;

verus! {

/// The owner's index set after storing a batch is the starting set together
/// with the batch's ids, and an entity neither kept nor listed is absent.
proof fn lemma_put_items_effect<TV>(
    table: Map<u64, (u64, TV)>,
    index: Map<u64, Set<u64>>,
    g: u64,
    items: Seq<(u64, TV)>,
)
    ensures
        set_at(spec_put_items(table, index, g, items).1, g) == set_at(index, g).union(
            items.map_values(|p: (u64, TV)| p.0).to_set(),
        ),
    decreases items.len(),
{
    let r = spec_put_items(table, index, g, items);
    if items.len() == 0 {
        let ids0 = items.map_values(|p: (u64, TV)| p.0);
        assert(ids0.len() == 0);
        assert forall|x: u64| !(#[trigger] ids0.to_set().contains(x)) by {
            if ids0.to_set().contains(x) {
                let j = choose|j: int| 0 <= j < ids0.len() && (#[trigger] ids0[j]) == x;
            }
        }
        assert(set_at(r.1, g) =~= set_at(index, g).union(ids0.to_set()));
    } else {
        let p = spec_put_item(table, index, g, items[0].0, items[0].1);
        lemma_put_items_effect(p.0, p.1, g, items.drop_first());
        let ids0 = items.map_values(|q: (u64, TV)| q.0);
        let ids_rest = items.drop_first().map_values(|q: (u64, TV)| q.0);
        assert(set_at(p.1, g) =~= set_at(index, g).insert(items[0].0));
        assert forall|x: u64| #[trigger] ids0.to_set().contains(x) implies x == items[0].0
            || ids_rest.to_set().contains(x) by {
            let j = choose|j: int| 0 <= j < ids0.len() && (#[trigger] ids0[j]) == x;
            if j > 0 {
                assert(ids_rest[j - 1] == x);
            }
        }
        assert forall|x: u64| #[trigger] ids_rest.to_set().contains(x) implies ids0.to_set(
        ).contains(x) by {
            let j = choose|j: int| 0 <= j < ids_rest.len() && (#[trigger] ids_rest[j]) == x;
            assert(ids0[j + 1] == x);
        }
        assert(ids0.to_set().contains(items[0].0)) by {
            assert(ids0[0] == items[0].0);
        }
        assert(set_at(r.1, g) =~= set_at(index, g).union(ids0.to_set()));
    }
}

/// Merging members into the cache leaves every channel table untouched.
proof fn lemma_member_chunk_frame(s: CacheView, ms: Seq<Member>)
    ensures
        spec_member_chunk(s, ms).channels_guild == s.channels_guild,
        spec_member_chunk(s, ms).guild_channels == s.guild_channels,
        spec_member_chunk(s, ms).resource_types == s.resource_types,
    decreases ms.len(),
{
    if ms.len() != 0 {
        lemma_member_chunk_frame(spec_member_add(s, ms[0]), ms.drop_first());
    }
}

/// Merging presences into the cache leaves every channel table untouched.
proof fn lemma_presence_chunk_frame(s: CacheView, ps: Seq<Presence>)
    ensures
        spec_presence_chunk(s, ps).channels_guild == s.channels_guild,
        spec_presence_chunk(s, ps).guild_channels == s.guild_channels,
        spec_presence_chunk(s, ps).resource_types == s.resource_types,
    decreases ps.len(),
{
    if ps.len() != 0 {
        lemma_presence_chunk_frame(
            spec_cache_presence(
                s,
                CachedPresence {
                    guild_id: ps[0].guild_id,
                    status: ps[0].status,
                    user_id: ps[0].user_id,
                },
            ),
            ps.drop_first(),
        );
    }
}

/// Snapshot replacement: after a full guild snapshot, the guild's channel
/// index holds exactly the snapshot's channel ids, and a channel the guild
/// previously owned that the snapshot no longer lists is gone from the store.
pub proof fn lemma_snapshot_replacement(s: CacheView, guild: Guild, c: u64)
    requires
        cache_inv(s),
        s.wants(RESOURCE_GUILD),
        s.wants(RESOURCE_CHANNEL),
    ensures
        ({
            let t = spec_guild_create(s, guild);
            let listed = guild.channels@.map_values(|ch: GuildChannel| ch.id@).to_set();
            &&& set_at(t.guild_channels, guild.id@) == listed
            &&& (s.channels_guild.dom().contains(c) && s.channels_guild[c].0 == guild.id@
                && !listed.contains(c)) ==> !t.channels_guild.dom().contains(c)
        }),
{
    let g = guild.id@;
    let items = guild.channels@.map_values(
        |ch: GuildChannel| (ch.id@, channel_with_guild(ch, g)),
    );
    let s1 = CacheView {
        guilds: s.guilds.insert(g, crate::event_aggregate::guild_view_of(guild)),
        unavailable_guilds: s.unavailable_guilds.remove(g),
        ..s
    };
    let cleared = spec_clear_items(s1.channels_guild, s1.guild_channels, g);
    lemma_put_items_effect(cleared.0, cleared.1, g, items);
    crate::index::lemma_put_items_entries(cleared.0, cleared.1, g, items);
    let r = spec_replace_items(s1.channels_guild, s1.guild_channels, g, items);
    let s2 = CacheView { channels_guild: r.0, guild_channels: r.1, ..s1 };
    let s3 = if s2.wants(crate::config::RESOURCE_EMOJI) {
        let re = spec_replace_items(
            s2.emojis,
            s2.guild_emojis,
            g,
            guild.emojis@.map_values(
                |e: crate::gateway::Emoji| (e.id@, crate::event_aggregate::emoji_view_of(e)),
            ),
        );
        CacheView { emojis: re.0, guild_emojis: re.1, ..s2 }
    } else {
        s2
    };
    let s4 = if s3.wants(RESOURCE_ROLE) {
        let rr = spec_replace_items(
            s3.roles,
            s3.guild_roles,
            g,
            guild.roles@.map_values(|x: crate::guild::Role| (x.id@, x@)),
        );
        CacheView { roles: rr.0, guild_roles: rr.1, ..s3 }
    } else {
        s3
    };
    let s5 = if s4.wants(crate::config::RESOURCE_STAGE_INSTANCE) {
        let rt = spec_replace_items(
            s4.stage_instances,
            s4.guild_stage_instances,
            g,
            guild.stage_instances@.map_values(
                |t: crate::channel::StageInstance|
                    (t.id@, crate::channel::StageInstanceView { guild_id: g, ..t@ }),
            ),
        );
        CacheView { stage_instances: rt.0, guild_stage_instances: rt.1, ..s4 }
    } else {
        s4
    };
    lemma_member_chunk_frame(s5, guild.members@);
    lemma_presence_chunk_frame(spec_member_chunk(s5, guild.members@), guild.presences@);
    let t = spec_guild_create(s, guild);
    assert(t == spec_presence_chunk(spec_member_chunk(s5, guild.members@), guild.presences@));
    assert(t.channels_guild == r.0 && t.guild_channels == r.1);
    let listed = guild.channels@.map_values(|ch: GuildChannel| ch.id@).to_set();
    assert(items.map_values(|p: (u64, crate::channel::GuildChannelView)| p.0) =~= guild.channels@
        .map_values(|ch: GuildChannel| ch.id@));
    assert(set_at(cleared.1, g) =~= Set::<u64>::empty());
    assert(set_at(t.guild_channels, g) =~= listed);
    if s.channels_guild.dom().contains(c) && s.channels_guild[c].0 == g && !listed.contains(c) {
        assert(set_at(s.guild_channels, g).contains(c));
        assert(!cleared.0.dom().contains(c));
        if t.channels_guild.dom().contains(c) {
            assert(r.0.dom().contains(c));
            if cleared.0.dom().contains(c) && r.0[c] == cleared.0[c] {
            } else {
                let i = choose|i: int|
                    0 <= i < items.len() && #[trigger] items[i].0 == c && r.0[c] == (
                    g,
                    items[i].1,
                );
                assert(guild.channels@.map_values(|ch: GuildChannel| ch.id@)[i] == c);
            }
            assert(false);
        }
    }
}

/// Idempotence: storing the same guild channel twice equals storing it once,
/// so the second application changes nothing and no table grows.
pub proof fn lemma_channel_create_idempotent(s: CacheView, g: u64, ch: GuildChannel)
    ensures
        spec_cache_guild_channel(spec_cache_guild_channel(s, g, ch), g, ch)
            == spec_cache_guild_channel(s, g, ch),
{
    if s.wants(RESOURCE_CHANNEL) {
        let t1 = spec_cache_guild_channel(s, g, ch);
        let t2 = spec_cache_guild_channel(t1, g, ch);
        assert(t1.channels_guild.dom().contains(ch.id@) && t1.channels_guild[ch.id@].0 == g);
        assert(t2.channels_guild =~= t1.channels_guild);
        assert(set_at(t1.guild_channels, g).contains(ch.id@));
        assert(t2.guild_channels =~~= t1.guild_channels);
        assert(t2 =~~= t1);
    }
}

/// Upsert economy: re-applying an identical role produces a state equal to
/// the first application's, so no observable change signal can differ.
pub proof fn lemma_role_upsert_economy(s: CacheView, g: u64, role: crate::guild::Role)
    ensures
        spec_cache_role(spec_cache_role(s, g, role), g, role) == spec_cache_role(s, g, role),
{
    if s.wants(RESOURCE_ROLE) {
        let t1 = spec_cache_role(s, g, role);
        let t2 = spec_cache_role(t1, g, role);
        assert(t1.roles.dom().contains(role.id@) && t1.roles[role.id@].0 == g);
        assert(t2.roles =~= t1.roles);
        assert(set_at(t1.guild_roles, g).contains(role.id@));
        assert(t2.guild_roles =~~= t1.guild_roles);
        assert(t2 =~~= t1);
    }
}

/// Gating: with the presence category disabled, a presence update leaves the
/// cache untouched, and no presence is ever stored.
pub proof fn lemma_presence_gating(s: CacheView, p: CachedPresence)
    requires
        cache_inv(s),
        !s.wants(RESOURCE_PRESENCE),
    ensures
        spec_cache_presence(s, p) == s,
        forall|q: (u64, u64)| !(#[trigger] s.presences.dom().contains(q)),
        s.presences.dom().len() == 0,
{
    assert(s.presences.dom() =~= Set::<(u64, u64)>::empty());
}

/// Bounded window: a new message never pushes a channel's history beyond the
/// configured capacity, and with capacity zero nothing is retained.
pub proof fn lemma_bounded_window(s: CacheView, msg: Message)
    requires
        cache_inv(s),
    ensures
        ({
            let t = spec_cache_message(s, msg);
            &&& forall|ch: u64| #[trigger]
                t.messages.dom().contains(ch) ==> t.messages[ch].len() <= s.message_cache_size
            &&& s.message_cache_size == 0 ==> t == s
        }),
{
    let t = spec_cache_message(s, msg);
    assert forall|ch: u64| #[trigger] t.messages.dom().contains(ch) implies t.messages[ch].len()
        <= s.message_cache_size by {
        if s.wants(crate::config::RESOURCE_MESSAGE) && s.message_cache_size != 0 && ch
            == msg.channel_id@ {
            let w = window_at(s.messages, ch);
            if s.messages.dom().contains(ch) {
                assert(w.len() <= s.message_cache_size);
            }
        } else {
            assert(s.messages.dom().contains(ch));
        }
    }
}

/// Cascade delete: after a guild is deleted, the guild, its channel, role and
/// member indexes, every channel and role it owned, and every member it held
/// are all gone.
pub proof fn lemma_cascade_delete(s: CacheView, d: GuildDelete, c: u64, r: u64, u: u64)
    requires
        cache_inv(s),
        s.wants(RESOURCE_GUILD),
        !d.unavailable,
    ensures
        ({
            let t = spec_guild_delete(s, d);
            let g = d.id@;
            &&& !t.guilds.dom().contains(g)
            &&& !t.guild_channels.dom().contains(g)
            &&& !t.guild_roles.dom().contains(g)
            &&& !t.guild_members.dom().contains(g)
            &&& (s.channels_guild.dom().contains(c) && s.channels_guild[c].0 == g)
                ==> !t.channels_guild.dom().contains(c)
            &&& (s.roles.dom().contains(r) && s.roles[r].0 == g) ==> !t.roles.dom().contains(r)
            &&& !t.members.dom().contains((g, u))
        }),
{
    let t = spec_guild_delete(s, d);
    let g = d.id@;
    if s.channels_guild.dom().contains(c) && s.channels_guild[c].0 == g {
        assert(set_at(s.guild_channels, g).contains(c));
    }
    if s.roles.dom().contains(r) && s.roles[r].0 == g {
        assert(set_at(s.guild_roles, g).contains(r));
    }
    if s.members.dom().contains((g, u)) {
        assert(set_at(s.guild_members, g).contains(u));
        assert(crate::index::pairs_with(g, set_at(s.guild_members, g)).contains((g, u)));
    }
}

/// Concurrent ingestion: member-add events for distinct users commute, so
/// the final state is independent of the order in which workers' events
/// arrive.
pub proof fn lemma_member_add_commutes(s: CacheView, m1: Member, m2: Member)
    requires
        m1.user.id@ != m2.user.id@,
    ensures
        spec_member_add(spec_member_add(s, m1), m2) == spec_member_add(spec_member_add(s, m2), m1),
{
    if !s.wants(RESOURCE_MEMBER) {
        return ;
    }
    let u1 = m1.user.id@;
    let u2 = m2.user.id@;
    let a = spec_member_add(spec_member_add(s, m1), m2);
    let b = spec_member_add(spec_member_add(s, m2), m1);
    assert(a.users =~~= b.users);
    assert(a.members =~~= b.members);
    assert(a.guild_members =~~= b.guild_members);
    assert(a =~~= b);
}

/// A member-add stores the member under its guild: the guild's member set
/// gains exactly the one user.
pub proof fn lemma_member_add_effect(s: CacheView, m: Member)
    requires
        s.wants(RESOURCE_MEMBER),
    ensures
        set_at(spec_member_add(s, m).guild_members, m.guild_id@) == set_at(
            s.guild_members,
            m.guild_id@,
        ).insert(m.user.id@),
        spec_member_add(s, m).members.dom() == s.members.dom().insert((m.guild_id@, m.user.id@)),
{
    assert(set_at(spec_member_add(s, m).guild_members, m.guild_id@) =~= set_at(
        s.guild_members,
        m.guild_id@,
    ).insert(m.user.id@));
    assert(spec_member_add(s, m).members.dom() =~= s.members.dom().insert(
        (m.guild_id@, m.user.id@),
    ));
}

/// Partial-update merge: a member update carrying only a new nickname
/// changes exactly the stored nickname and leaves every other field of the
/// member untouched.
pub proof fn lemma_partial_update_merge(s: CacheView, up: MemberUpdate)
    requires
        s.wants(RESOURCE_MEMBER),
        s.members.dom().contains((up.guild_id@, up.user_id@)),
        up.nick is Some,
        up.deaf is None,
        up.joined_at is None,
        up.mute is None,
        up.pending is None,
        up.premium_since is None,
        up.roles is None,
    ensures
        ({
            let key = (up.guild_id@, up.user_id@);
            let before = s.members[key];
            let after = spec_member_update(s, up).members[key];
            &&& after.nick == Some(up.nick->0@)
            &&& after.deaf == before.deaf
            &&& after.guild_id == before.guild_id
            &&& after.joined_at == before.joined_at
            &&& after.mute == before.mute
            &&& after.pending == before.pending
            &&& after.premium_since == before.premium_since
            &&& after.roles == before.roles
            &&& after.user_id == before.user_id
        }),
{
}

} // verus!
