//! The event dispatcher: a total function from any inbound gateway event to
//! the store mutations it implies. Connection-lifecycle notifications are
//! accepted and ignored, so ingestion never fails.

use vstd::prelude::*;
use crate::cache::CacheView;
use crate::cache::InMemoryCache;
use crate::event_aggregate::spec_guild_create;
use crate::event_aggregate::spec_guild_delete;
use crate::event_aggregate::spec_guild_update;
use crate::event_aggregate::spec_ready;
use crate::event_channel::spec_cache_channel;
use crate::event_channel::spec_channel_pins_update;
use crate::event_channel::spec_delete_channel;
use crate::event_guild::spec_cache_current_user;
use crate::event_guild::spec_cache_integration;
use crate::event_guild::spec_cache_presence;
use crate::event_guild::spec_cache_role;
use crate::event_guild::spec_cache_stage_instance;
use crate::event_guild::spec_delete_integration;
use crate::event_guild::spec_delete_role;
use crate::event_guild::spec_delete_stage_instance;
use crate::event_guild::spec_unavailable_guild;
use crate::event_member::spec_member_add;
use crate::event_member::spec_member_chunk;
use crate::event_member::spec_member_remove;
use crate::event_member::spec_member_update;
use crate::event_message::spec_cache_message;
use crate::event_message::spec_message_delete;
use crate::event_message::spec_message_delete_bulk;
use crate::event_message::spec_message_update;
use crate::event_message::spec_reaction_add;
use crate::event_message::spec_reaction_remove;
use crate::event_message::spec_reaction_remove_all;
use crate::event_message::spec_reaction_remove_emoji;
use crate::gateway::Event;
use crate::model::CachedPresence;
use crate::util::opt_string_view;

verus! {

/// The cache after one event, for every kind the gateway can deliver.
pub open spec fn spec_update(s: CacheView, event: Event) -> CacheView {
    match event {
        Event::BanAdd(_) => s,
        Event::BanRemove(_) => s,
        Event::ChannelCreate(c) => spec_cache_channel(s, c),
        Event::ChannelDelete(c) => spec_delete_channel(s, c),
        Event::ChannelPinsUpdate(p) => spec_channel_pins_update(
            s,
            p.channel_id@,
            opt_string_view(p.last_pin_timestamp),
        ),
        Event::ChannelUpdate(c) => spec_cache_channel(s, c),
        Event::GatewayHeartbeat(_) => s,
        Event::GatewayHeartbeatAck => s,
        Event::GatewayHello(_) => s,
        Event::GatewayInvalidateSession(_) => s,
        Event::GatewayReconnect => s,
        Event::GiftCodeUpdate => s,
        Event::GuildCreate(g) => spec_guild_create(s, *g),
        Event::GuildDelete(d) => spec_guild_delete(s, *d),
        Event::GuildEmojisUpdate(e) => ({
            if !s.wants(crate::config::RESOURCE_EMOJI) {
                s
            } else {
                let r = crate::index::spec_replace_items(
                    s.emojis,
                    s.guild_emojis,
                    e.guild_id@,
                    e.emojis@.map_values(
                        |x: crate::gateway::Emoji|
                            (x.id@, crate::event_aggregate::emoji_view_of(x)),
                    ),
                );
                CacheView { emojis: r.0, guild_emojis: r.1, ..s }
            }
        }),
        Event::GuildIntegrationsUpdate(_) => s,
        Event::GuildUpdate(u) => spec_guild_update(s, *u),
        Event::IntegrationCreate(i) => spec_cache_integration(s, i.guild_id@, i.integration),
        Event::IntegrationDelete(i) => spec_delete_integration(s, i.guild_id@, i.id@),
        Event::IntegrationUpdate(i) => spec_cache_integration(s, i.guild_id@, i.integration),
        Event::InteractionCreate(i) => crate::event_interaction::spec_interaction_create(s, *i),
        Event::InviteCreate(_) => s,
        Event::InviteDelete(_) => s,
        Event::MemberAdd(m) => spec_member_add(s, *m),
        Event::MemberRemove(m) => spec_member_remove(s, m.guild_id@, m.user_id@),
        Event::MemberUpdate(m) => spec_member_update(s, *m),
        Event::MemberChunk(c) => spec_member_chunk(s, c.members@),
        Event::MessageCreate(m) => spec_cache_message(s, *m),
        Event::MessageDelete(m) => spec_message_delete(s, m.channel_id@, m.id@),
        Event::MessageDeleteBulk(m) => spec_message_delete_bulk(
            s,
            m.channel_id@,
            crate::util::id_seq_view(m.ids@),
        ),
        Event::MessageUpdate(m) => spec_message_update(
            s,
            m.channel_id@,
            m.id@,
            opt_string_view(m.content),
            m.pinned,
        ),
        Event::PresenceUpdate(p) => spec_cache_presence(
            s,
            CachedPresence { guild_id: p.guild_id, status: p.status, user_id: p.user_id },
        ),
        Event::PresencesReplace => s,
        Event::ReactionAdd(r) => spec_reaction_add(s, r.channel_id@, r.message_id@, r.emoji@),
        Event::ReactionRemove(r) => spec_reaction_remove(s, r.channel_id@, r.message_id@, r.emoji@),
        Event::ReactionRemoveAll(r) => spec_reaction_remove_all(s, r.channel_id@, r.message_id@),
        Event::ReactionRemoveEmoji(r) => spec_reaction_remove_emoji(
            s,
            r.channel_id@,
            r.message_id@,
            r.emoji@,
        ),
        Event::Ready(r) => spec_ready(s, *r),
        Event::Resumed => s,
        Event::RoleCreate(r) => spec_cache_role(s, r.guild_id@, r.role),
        Event::RoleDelete(r) => spec_delete_role(s, r.role_id@),
        Event::RoleUpdate(r) => spec_cache_role(s, r.guild_id@, r.role),
        Event::ShardConnected(_) => s,
        Event::ShardConnecting(_) => s,
        Event::ShardDisconnected(_) => s,
        Event::ShardIdentifying(_) => s,
        Event::ShardReconnecting(_) => s,
        Event::ShardPayload(_) => s,
        Event::ShardResuming(_) => s,
        Event::StageInstanceCreate(t) => spec_cache_stage_instance(s, t),
        Event::StageInstanceDelete(t) => spec_delete_stage_instance(s, t.id@),
        Event::StageInstanceUpdate(t) => spec_cache_stage_instance(s, t),
        Event::TypingStart(_) => s,
        Event::UnavailableGuild(u) => spec_unavailable_guild(s, u.id@),
        Event::UserUpdate(u) => spec_cache_current_user(s, u),
        Event::VoiceServerUpdate(_) => s,
        Event::VoiceStateUpdate(vs) => crate::event_voice::spec_voice_state_update(s, *vs),
        Event::WebhooksUpdate(_) => s,
    }
}

impl InMemoryCache {
    /// Updates the cache with an event from the gateway. Every event kind is
    /// handled; kinds that carry no cacheable state are explicit no-ops, and
    /// ingestion never fails.
    pub fn update(&mut self, event: &Event)
        requires
            old(self).inv(),
        ensures
            final(self).inv(),
            final(self)@ == spec_update(old(self)@, *event),
    {
        match event {
            Event::BanAdd(_) => {},
            Event::BanRemove(_) => {},
            Event::ChannelCreate(c) => self.cache_channel(c),
            Event::ChannelDelete(c) => self.delete_channel(c),
            Event::ChannelPinsUpdate(p) => self.channel_pins_update(
                p.channel_id,
                &p.last_pin_timestamp,
            ),
            Event::ChannelUpdate(c) => self.cache_channel(c),
            Event::GatewayHeartbeat(_) => {},
            Event::GatewayHeartbeatAck => {},
            Event::GatewayHello(_) => {},
            Event::GatewayInvalidateSession(_) => {},
            Event::GatewayReconnect => {},
            Event::GiftCodeUpdate => {},
            Event::GuildCreate(g) => self.guild_create(g),
            Event::GuildDelete(d) => self.guild_delete(**d),
            Event::GuildEmojisUpdate(e) => self.guild_emojis_update(e.guild_id, &e.emojis),
            Event::GuildIntegrationsUpdate(_) => {},
            Event::GuildUpdate(u) => self.guild_update(u),
            Event::IntegrationCreate(i) => self.cache_integration(
                i.guild_id,
                i.integration.clone(),
            ),
            Event::IntegrationDelete(i) => self.delete_integration(i.guild_id, i.id),
            Event::IntegrationUpdate(i) => self.cache_integration(
                i.guild_id,
                i.integration.clone(),
            ),
            Event::InteractionCreate(i) => self.interaction_create(i),
            Event::InviteCreate(_) => {},
            Event::InviteDelete(_) => {},
            Event::MemberAdd(m) => self.member_add(m),
            Event::MemberRemove(m) => self.member_remove(m.guild_id, m.user_id),
            Event::MemberUpdate(m) => self.member_update(m),
            Event::MemberChunk(c) => self.member_chunk(&c.members),
            Event::MessageCreate(m) => self.cache_message(m),
            Event::MessageDelete(m) => self.message_delete(m.channel_id, m.id),
            Event::MessageDeleteBulk(m) => self.message_delete_bulk(m.channel_id, &m.ids),
            Event::MessageUpdate(m) => self.message_update(
                m.channel_id,
                m.id,
                &m.content,
                m.pinned,
            ),
            Event::PresenceUpdate(p) => self.cache_presence(p.guild_id, p.user_id, p.status),
            Event::PresencesReplace => {},
            Event::ReactionAdd(r) => self.reaction_add(r.channel_id, r.message_id, &r.emoji),
            Event::ReactionRemove(r) => self.reaction_remove(r.channel_id, r.message_id, &r.emoji),
            Event::ReactionRemoveAll(r) => self.reaction_remove_all(r.channel_id, r.message_id),
            Event::ReactionRemoveEmoji(r) => self.reaction_remove_emoji(
                r.channel_id,
                r.message_id,
                &r.emoji,
            ),
            Event::Ready(r) => self.ready(r),
            Event::Resumed => {},
            Event::RoleCreate(r) => self.cache_role(r.guild_id, r.role.clone()),
            Event::RoleDelete(r) => self.delete_role(r.role_id),
            Event::RoleUpdate(r) => self.cache_role(r.guild_id, r.role.clone()),
            Event::ShardConnected(_) => {},
            Event::ShardConnecting(_) => {},
            Event::ShardDisconnected(_) => {},
            Event::ShardIdentifying(_) => {},
            Event::ShardReconnecting(_) => {},
            Event::ShardPayload(_) => {},
            Event::ShardResuming(_) => {},
            Event::StageInstanceCreate(t) => self.cache_stage_instance(t.clone()),
            Event::StageInstanceDelete(t) => self.delete_stage_instance(t.id),
            Event::StageInstanceUpdate(t) => self.cache_stage_instance(t.clone()),
            Event::TypingStart(_) => {},
            Event::UnavailableGuild(u) => self.unavailable_guild(u.id),
            Event::UserUpdate(u) => self.cache_current_user(u.clone()),
            Event::VoiceServerUpdate(_) => {},
            Event::VoiceStateUpdate(vs) => self.voice_state_update(vs),
            Event::WebhooksUpdate(_) => {},
        }
        proof {
            assert(self@ =~= spec_update(old(self)@, *event));
        }
    }
}

} // verus!
