//! Handlers for the guild-owned entities with a single-id key: roles,
//! emojis, stage instances, integrations, and presences, together with the
//! current-user and unavailable-guild notifications.
//!
//! Each handler's contract gives the new cache view as a function of the old
//! one, and each preserves the cache invariant.

use vstd::prelude::*;
use crate::cache::CacheView;
use crate::cache::InMemoryCache;
use crate::cache::cache_inv;
use crate::channel::StageInstance;
use crate::config::RESOURCE_EMOJI;
use crate::config::RESOURCE_GUILD;
use crate::config::RESOURCE_INTEGRATION;
use crate::config::RESOURCE_PRESENCE;
use crate::config::RESOURCE_ROLE;
use crate::config::RESOURCE_STAGE_INSTANCE;
use crate::config::RESOURCE_USER_CURRENT;
use crate::guild::CachedEmoji;
use crate::guild::GuildIntegration;
use crate::guild::Role;
use crate::id::GuildId;
use crate::id::IntegrationId;
use crate::id::RoleId;
use crate::id::StageId;
use crate::id::UserId;
use crate::index::index_with;
use crate::index::index_without;
use crate::index::lemma_linked_del;
use crate::index::lemma_linked_pair_insert;
use crate::index::lemma_linked_pair_remove;
use crate::index::lemma_linked_put;
use crate::index::del_guild_item;
use crate::index::put_guild_item;
use crate::index::spec_del_item;
use crate::index::spec_put_item;
use crate::model::CachedPresence;
use crate::model::Status;
use crate::user::CurrentUser;

verus! {

/// The cache after storing a role of a guild.
pub open spec fn spec_cache_role(s: CacheView, g: u64, role: Role) -> CacheView {
    if !s.wants(RESOURCE_ROLE) {
        s
    } else {
        let put = spec_put_item(s.roles, s.guild_roles, g, role.id@, role@);
        CacheView { roles: put.0, guild_roles: put.1, ..s }
    }
}

/// The cache after a role was deleted.
pub open spec fn spec_delete_role(s: CacheView, r: u64) -> CacheView {
    if !s.wants(RESOURCE_ROLE) {
        s
    } else {
        let del = spec_del_item(s.roles, s.guild_roles, r);
        CacheView { roles: del.0, guild_roles: del.1, ..s }
    }
}

/// The cache after storing an emoji of a guild.
pub open spec fn spec_cache_emoji(s: CacheView, g: u64, emoji: CachedEmoji) -> CacheView {
    if !s.wants(RESOURCE_EMOJI) {
        s
    } else {
        let put = spec_put_item(s.emojis, s.guild_emojis, g, emoji.id@, emoji@);
        CacheView { emojis: put.0, guild_emojis: put.1, ..s }
    }
}

/// The cache after storing a stage instance.
pub open spec fn spec_cache_stage_instance(s: CacheView, stage: StageInstance) -> CacheView {
    if !s.wants(RESOURCE_STAGE_INSTANCE) {
        s
    } else {
        let put = spec_put_item(
            s.stage_instances,
            s.guild_stage_instances,
            stage.guild_id@,
            stage.id@,
            stage@,
        );
        CacheView { stage_instances: put.0, guild_stage_instances: put.1, ..s }
    }
}

/// The cache after a stage instance was deleted.
pub open spec fn spec_delete_stage_instance(s: CacheView, t: u64) -> CacheView {
    if !s.wants(RESOURCE_STAGE_INSTANCE) {
        s
    } else {
        let del = spec_del_item(s.stage_instances, s.guild_stage_instances, t);
        CacheView { stage_instances: del.0, guild_stage_instances: del.1, ..s }
    }
}

/// The cache after storing an integration of a guild.
pub open spec fn spec_cache_integration(
    s: CacheView,
    g: u64,
    integration: GuildIntegration,
) -> CacheView {
    if !s.wants(RESOURCE_INTEGRATION) {
        s
    } else {
        CacheView {
            integrations: s.integrations.insert((g, integration.id@), integration@),
            guild_integrations: index_with(s.guild_integrations, g, integration.id@),
            ..s
        }
    }
}

/// The cache after an integration was deleted from a guild.
pub open spec fn spec_delete_integration(s: CacheView, g: u64, i: u64) -> CacheView {
    if !s.wants(RESOURCE_INTEGRATION) {
        s
    } else {
        CacheView {
            integrations: s.integrations.remove((g, i)),
            guild_integrations: index_without(s.guild_integrations, g, i),
            ..s
        }
    }
}

/// The cache after a presence update.
pub open spec fn spec_cache_presence(s: CacheView, p: CachedPresence) -> CacheView {
    if !s.wants(RESOURCE_PRESENCE) {
        s
    } else {
        CacheView {
            presences: s.presences.insert((p.guild_id@, p.user_id@), p),
            guild_presences: index_with(s.guild_presences, p.guild_id@, p.user_id@),
            ..s
        }
    }
}

/// The cache after a guild became unavailable: the guild entry is dropped and
/// the id is marked unavailable.
pub open spec fn spec_unavailable_guild(s: CacheView, g: u64) -> CacheView {
    if !s.wants(RESOURCE_GUILD) {
        s
    } else {
        CacheView {
            guilds: s.guilds.remove(g),
            unavailable_guilds: s.unavailable_guilds.insert(g),
            ..s
        }
    }
}

/// The cache after the current user was refreshed.
pub open spec fn spec_cache_current_user(s: CacheView, user: CurrentUser) -> CacheView {
    if !s.wants(RESOURCE_USER_CURRENT) {
        s
    } else {
        CacheView { current_user: Some(user@), ..s }
    }
}

/// Storing a role preserves the cache invariant.
pub proof fn lemma_inv_cache_role(s: CacheView, g: u64, role: Role)
    requires
        cache_inv(s),
    ensures
        cache_inv(spec_cache_role(s, g, role)),
{
    if s.wants(RESOURCE_ROLE) {
        lemma_linked_put(s.roles, s.guild_roles, g, role.id@, role@);
        let t = spec_cache_role(s, g, role);
        assert forall|r: u64| #[trigger] t.roles.dom().contains(r) implies t.roles[r].1.id
            == r by {
            if r != role.id@ {
                assert(s.roles.dom().contains(r));
            }
        }
    }
}

/// Deleting a role preserves the cache invariant.
pub proof fn lemma_inv_delete_role(s: CacheView, r: u64)
    requires
        cache_inv(s),
    ensures
        cache_inv(spec_delete_role(s, r)),
{
    if s.wants(RESOURCE_ROLE) {
        lemma_linked_del(s.roles, s.guild_roles, r);
        let t = spec_delete_role(s, r);
        assert forall|r2: u64| #[trigger] t.roles.dom().contains(r2) implies t.roles[r2].1.id
            == r2 by {
            assert(s.roles.dom().contains(r2));
        }
    }
}

/// Storing an emoji preserves the cache invariant.
pub proof fn lemma_inv_cache_emoji(s: CacheView, g: u64, emoji: CachedEmoji)
    requires
        cache_inv(s),
    ensures
        cache_inv(spec_cache_emoji(s, g, emoji)),
{
    if s.wants(RESOURCE_EMOJI) {
        lemma_linked_put(s.emojis, s.guild_emojis, g, emoji.id@, emoji@);
        let t = spec_cache_emoji(s, g, emoji);
        assert forall|e: u64| #[trigger] t.emojis.dom().contains(e) implies t.emojis[e].1.id
            == e by {
            if e != emoji.id@ {
                assert(s.emojis.dom().contains(e));
            }
        }
    }
}

/// Storing a stage instance preserves the cache invariant.
pub proof fn lemma_inv_cache_stage_instance(s: CacheView, stage: StageInstance)
    requires
        cache_inv(s),
    ensures
        cache_inv(spec_cache_stage_instance(s, stage)),
{
    if s.wants(RESOURCE_STAGE_INSTANCE) {
        lemma_linked_put(
            s.stage_instances,
            s.guild_stage_instances,
            stage.guild_id@,
            stage.id@,
            stage@,
        );
        let t = spec_cache_stage_instance(s, stage);
        assert forall|t2: u64| #[trigger] t.stage_instances.dom().contains(t2) implies
            t.stage_instances[t2].1.id == t2 && t.stage_instances[t2].1.guild_id
            == t.stage_instances[t2].0 by {
            if t2 != stage.id@ {
                assert(s.stage_instances.dom().contains(t2));
            }
        }
    }
}

/// Deleting a stage instance preserves the cache invariant.
pub proof fn lemma_inv_delete_stage_instance(s: CacheView, t2: u64)
    requires
        cache_inv(s),
    ensures
        cache_inv(spec_delete_stage_instance(s, t2)),
{
    if s.wants(RESOURCE_STAGE_INSTANCE) {
        lemma_linked_del(s.stage_instances, s.guild_stage_instances, t2);
        let t = spec_delete_stage_instance(s, t2);
        assert forall|x: u64| #[trigger] t.stage_instances.dom().contains(x) implies
            t.stage_instances[x].1.id == x && t.stage_instances[x].1.guild_id
            == t.stage_instances[x].0 by {
            assert(s.stage_instances.dom().contains(x));
        }
    }
}

/// Storing an integration preserves the cache invariant.
pub proof fn lemma_inv_cache_integration(s: CacheView, g: u64, integration: GuildIntegration)
    requires
        cache_inv(s),
    ensures
        cache_inv(spec_cache_integration(s, g, integration)),
{
    if s.wants(RESOURCE_INTEGRATION) {
        lemma_linked_pair_insert(s.integrations, s.guild_integrations, g, integration.id@,
            integration@);
        let t = spec_cache_integration(s, g, integration);
        assert forall|g2: u64, i2: u64| #[trigger] t.integrations.dom().contains(
            (g2, i2),
        ) implies t.integrations[(g2, i2)].id == i2 by {
            if g2 != g || i2 != integration.id@ {
                assert(s.integrations.dom().contains((g2, i2)));
            }
        }
    }
}

/// Deleting an integration preserves the cache invariant.
pub proof fn lemma_inv_delete_integration(s: CacheView, g: u64, i: u64)
    requires
        cache_inv(s),
    ensures
        cache_inv(spec_delete_integration(s, g, i)),
{
    if s.wants(RESOURCE_INTEGRATION) {
        lemma_linked_pair_remove(s.integrations, s.guild_integrations, g, i);
        let t = spec_delete_integration(s, g, i);
        assert forall|g2: u64, i2: u64| #[trigger] t.integrations.dom().contains(
            (g2, i2),
        ) implies t.integrations[(g2, i2)].id == i2 by {
            assert(s.integrations.dom().contains((g2, i2)));
        }
    }
}

/// Storing a presence preserves the cache invariant.
pub proof fn lemma_inv_cache_presence(s: CacheView, p: CachedPresence)
    requires
        cache_inv(s),
    ensures
        cache_inv(spec_cache_presence(s, p)),
{
    if s.wants(RESOURCE_PRESENCE) {
        lemma_linked_pair_insert(s.presences, s.guild_presences, p.guild_id@, p.user_id@, p);
        let t = spec_cache_presence(s, p);
        assert forall|g2: u64, u2: u64| #[trigger] t.presences.dom().contains(
            (g2, u2),
        ) implies t.presences[(g2, u2)].guild_id@ == g2 && t.presences[(g2, u2)].user_id@
            == u2 by {
            if g2 != p.guild_id@ || u2 != p.user_id@ {
                assert(s.presences.dom().contains((g2, u2)));
            }
        }
    }
}

impl InMemoryCache {
    /// Caches a role of a guild. With the role category disabled this is a
    /// no-op.
    pub fn cache_role(&mut self, guild_id: GuildId, role: Role)
        requires
            old(self).inv(),
        ensures
            final(self).inv(),
            final(self)@ == spec_cache_role(old(self)@, guild_id@, role),
    {
        proof {
            lemma_inv_cache_role(old(self)@, guild_id@, role);
        }
        if !self.wants(RESOURCE_ROLE) {
            return ;
        }
        let rid = role.id.get();
        put_guild_item(&mut self.roles, &mut self.guild_roles, guild_id, rid, role);
        proof {
            assert(self@ =~= spec_cache_role(old(self)@, guild_id@, role));
        }
    }

    /// Removes a deleted role. With the role category disabled this is a
    /// no-op.
    pub fn delete_role(&mut self, role_id: RoleId)
        requires
            old(self).inv(),
        ensures
            final(self).inv(),
            final(self)@ == spec_delete_role(old(self)@, role_id@),
    {
        proof {
            lemma_inv_delete_role(old(self)@, role_id@);
        }
        if !self.wants(RESOURCE_ROLE) {
            return ;
        }
        del_guild_item(&mut self.roles, &mut self.guild_roles, role_id.get());
        proof {
            assert(self@ =~= spec_delete_role(old(self)@, role_id@));
        }
    }

    /// Caches an emoji of a guild. With the emoji category disabled this is a
    /// no-op.
    pub fn cache_emoji(&mut self, guild_id: GuildId, emoji: CachedEmoji)
        requires
            old(self).inv(),
        ensures
            final(self).inv(),
            final(self)@ == spec_cache_emoji(old(self)@, guild_id@, emoji),
    {
        proof {
            lemma_inv_cache_emoji(old(self)@, guild_id@, emoji);
        }
        if !self.wants(RESOURCE_EMOJI) {
            return ;
        }
        let eid = emoji.id.get();
        put_guild_item(&mut self.emojis, &mut self.guild_emojis, guild_id, eid, emoji);
        proof {
            assert(self@ =~= spec_cache_emoji(old(self)@, guild_id@, emoji));
        }
    }

    /// Caches a stage instance. With the stage-instance category disabled
    /// this is a no-op.
    pub fn cache_stage_instance(&mut self, stage: StageInstance)
        requires
            old(self).inv(),
        ensures
            final(self).inv(),
            final(self)@ == spec_cache_stage_instance(old(self)@, stage),
    {
        proof {
            lemma_inv_cache_stage_instance(old(self)@, stage);
        }
        if !self.wants(RESOURCE_STAGE_INSTANCE) {
            return ;
        }
        let sid = stage.id.get();
        let gid = stage.guild_id;
        put_guild_item(&mut self.stage_instances, &mut self.guild_stage_instances, gid, sid, stage);
        proof {
            assert(self@ =~= spec_cache_stage_instance(old(self)@, stage));
        }
    }

    /// Removes a deleted stage instance. With the stage-instance category
    /// disabled this is a no-op.
    pub fn delete_stage_instance(&mut self, stage_id: StageId)
        requires
            old(self).inv(),
        ensures
            final(self).inv(),
            final(self)@ == spec_delete_stage_instance(old(self)@, stage_id@),
    {
        proof {
            lemma_inv_delete_stage_instance(old(self)@, stage_id@);
        }
        if !self.wants(RESOURCE_STAGE_INSTANCE) {
            return ;
        }
        del_guild_item(&mut self.stage_instances, &mut self.guild_stage_instances, stage_id.get());
        proof {
            assert(self@ =~= spec_delete_stage_instance(old(self)@, stage_id@));
        }
    }

    /// Caches an integration of a guild. With the integration category
    /// disabled this is a no-op.
    pub fn cache_integration(&mut self, guild_id: GuildId, integration: GuildIntegration)
        requires
            old(self).inv(),
        ensures
            final(self).inv(),
            final(self)@ == spec_cache_integration(old(self)@, guild_id@, integration),
    {
        proof {
            lemma_inv_cache_integration(old(self)@, guild_id@, integration);
        }
        if !self.wants(RESOURCE_INTEGRATION) {
            return ;
        }
        let iid = integration.id.get();
        crate::index::index_add(&mut self.guild_integrations, guild_id.get(), iid);
        self.integrations.insert((guild_id.get(), iid), integration);
        proof {
            assert(self@ =~= spec_cache_integration(old(self)@, guild_id@, integration));
        }
    }

    /// Removes a deleted integration. With the integration category disabled
    /// this is a no-op.
    pub fn delete_integration(&mut self, guild_id: GuildId, integration_id: IntegrationId)
        requires
            old(self).inv(),
        ensures
            final(self).inv(),
            final(self)@ == spec_delete_integration(old(self)@, guild_id@, integration_id@),
    {
        proof {
            lemma_inv_delete_integration(old(self)@, guild_id@, integration_id@);
        }
        if !self.wants(RESOURCE_INTEGRATION) {
            return ;
        }
        self.integrations.remove((guild_id.get(), integration_id.get()));
        crate::index::index_del(&mut self.guild_integrations, guild_id.get(),
            integration_id.get());
        proof {
            assert(self@ =~= spec_delete_integration(old(self)@, guild_id@, integration_id@));
        }
    }

    /// Caches a presence. With the presence category disabled this is a
    /// no-op.
    pub fn cache_presence(&mut self, guild_id: GuildId, user_id: UserId, status: Status)
        requires
            old(self).inv(),
        ensures
            final(self).inv(),
            final(self)@ == spec_cache_presence(
                old(self)@,
                CachedPresence { guild_id, status, user_id },
            ),
    {
        let p = CachedPresence { guild_id, status, user_id };
        proof {
            lemma_inv_cache_presence(old(self)@, p);
        }
        if !self.wants(RESOURCE_PRESENCE) {
            return ;
        }
        crate::index::index_add(&mut self.guild_presences, guild_id.get(), user_id.get());
        self.presences.insert((guild_id.get(), user_id.get()), p);
        proof {
            assert(self@ =~= spec_cache_presence(old(self)@, p));
        }
    }

    /// Drops a guild that became unavailable and records the marker. With the
    /// guild category disabled this is a no-op.
    pub fn unavailable_guild(&mut self, guild_id: GuildId)
        requires
            old(self).inv(),
        ensures
            final(self).inv(),
            final(self)@ == spec_unavailable_guild(old(self)@, guild_id@),
    {
        if !self.wants(RESOURCE_GUILD) {
            return ;
        }
        self.guilds.remove(guild_id.get());
        self.unavailable_guilds.insert(guild_id.get());
        proof {
            assert(self@ =~= spec_unavailable_guild(old(self)@, guild_id@));
            let t = spec_unavailable_guild(old(self)@, guild_id@);
            assert forall|g2: u64| #[trigger] t.guilds.dom().contains(g2) implies t.guilds[g2].id
                == g2 by {
                assert(old(self)@.guilds.dom().contains(g2));
            }
        }
    }

    /// Replaces the cached current user. With the current-user category
    /// disabled this is a no-op.
    pub fn cache_current_user(&mut self, user: CurrentUser)
        requires
            old(self).inv(),
        ensures
            final(self).inv(),
            final(self)@ == spec_cache_current_user(old(self)@, user),
    {
        if !self.wants(RESOURCE_USER_CURRENT) {
            return ;
        }
        self.current_user = Some(user);
        proof {
            assert(self@ =~= spec_cache_current_user(old(self)@, user));
        }
    }
}

} // verus!
