//! Tests of the cache engine: event ingestion, indexes, the message window,
//! gating, and cascades.

use twilight::cache::InMemoryCache;
use twilight::channel::Channel;
use twilight::channel::ChannelType;
use twilight::channel::GuildChannel;
use twilight::config::RESOURCE_ALL;
use twilight::config::RESOURCE_PRESENCE;
use twilight::gateway::ApplicationCommand;
use twilight::gateway::CommandData;
use twilight::gateway::CommandInteractionDataResolved;
use twilight::gateway::Event;
use twilight::gateway::Guild;
use twilight::gateway::GuildDelete;
use twilight::gateway::Interaction;
use twilight::gateway::InteractionCreate;
use twilight::gateway::InteractionMember;
use twilight::gateway::Member;
use twilight::gateway::MemberUpdate;
use twilight::gateway::Message;
use twilight::gateway::MessageDelete;
use twilight::gateway::Presence;
use twilight::gateway::RoleCreate;
use twilight::gateway::RoleDelete;
use twilight::guild::CachedEmoji;
use twilight::guild::CachedMember;
use twilight::guild::PartialMember;
use twilight::guild::Role;
use twilight::id::ChannelId;
use twilight::id::CommandId;
use twilight::id::EmojiId;
use twilight::id::GuildId;
use twilight::id::InteractionId;
use twilight::id::MessageId;
use twilight::id::RoleId;
use twilight::id::UserId;
use twilight::model::Status;
use twilight::user::User;

fn user(id: u64) -> User {
    User {
        avatar: None,
        bot: false,
        discriminator: String::from("0001"),
        email: None,
        flags: None,
        id: UserId::new(id).expect("non zero"),
        locale: None,
        mfa_enabled: None,
        name: String::from("test"),
        premium_type: None,
        public_flags: None,
        system: None,
        verified: None,
    }
}

fn member(user_id: u64, guild_id: u64) -> Member {
    Member {
        deaf: false,
        guild_id: GuildId::new(guild_id).expect("non zero"),
        joined_at: Some(String::from("joined at")),
        mute: false,
        nick: None,
        pending: false,
        premium_since: None,
        roles: Vec::new(),
        user: user(user_id),
    }
}

fn emoji(id: u64) -> CachedEmoji {
    CachedEmoji {
        animated: false,
        available: true,
        id: EmojiId::new(id).expect("non zero"),
        managed: false,
        name: String::from("emoji"),
        require_colons: true,
        roles: Vec::new(),
        user_id: None,
    }
}

fn channel(id: u64, guild_id: u64) -> GuildChannel {
    GuildChannel {
        guild_id: Some(GuildId::new(guild_id).expect("non zero")),
        id: ChannelId::new(id).expect("non zero"),
        kind: ChannelType::GuildText,
        last_pin_timestamp: None,
        name: String::from("channel"),
        parent_id: None,
        permission_overwrites: Vec::new(),
        position: 0,
    }
}

fn role(id: u64) -> Role {
    Role {
        color: 0,
        hoist: false,
        id: RoleId::new(id).expect("non zero"),
        managed: false,
        mentionable: true,
        name: String::from("role name"),
        permissions: 0,
        position: 2,
        tags: None,
    }
}

fn message(id: u64, channel_id: u64, author: u64, content: &str) -> Message {
    Message {
        author: user(author),
        channel_id: ChannelId::new(channel_id).expect("non zero"),
        content: String::from(content),
        guild_id: None,
        id: MessageId::new(id).expect("non zero"),
        pinned: false,
        timestamp: None,
    }
}

fn guild_with_channels(guild_id: u64, channel_ids: &[u64]) -> Guild {
    let mut channels = Vec::new();
    for id in channel_ids {
        channels.push(channel(*id, guild_id));
    }
    Guild {
        channels,
        description: None,
        emojis: Vec::new(),
        icon: None,
        id: GuildId::new(guild_id).expect("non zero"),
        member_count: None,
        members: Vec::new(),
        name: String::from("guild"),
        owner_id: UserId::new(100).expect("non zero"),
        presences: Vec::new(),
        roles: Vec::new(),
        stage_instances: Vec::new(),
        unavailable: false,
    }
}

#[test]
fn test_syntax_update() {
    let mut cache = InMemoryCache::new();
    cache.update(&Event::RoleDelete(RoleDelete {
        guild_id: GuildId::new(1).expect("non zero"),
        role_id: RoleId::new(1).expect("non zero"),
    }));
}

#[test]
fn test_clear() {
    let mut cache = InMemoryCache::new();
    cache.cache_emoji(GuildId::new(1).expect("non zero"), emoji(3));
    cache.cache_user(&user(4), Some(GuildId::new(2).expect("non zero")));
    cache.cache_member(
        GuildId::new(2).expect("non zero"),
        CachedMember {
            deaf: None,
            guild_id: GuildId::new(2).expect("non zero"),
            joined_at: None,
            mute: None,
            nick: None,
            pending: false,
            premium_since: None,
            roles: Vec::new(),
            user_id: UserId::new(4).expect("non zero"),
        },
    );
    assert!(cache.emoji(EmojiId::new(3).expect("non zero")).is_some());
    assert!(
        cache
            .member(
                GuildId::new(2).expect("non zero"),
                UserId::new(4).expect("non zero"),
            )
            .is_some()
    );
    cache.clear();
    assert!(cache.emoji(EmojiId::new(3).expect("non zero")).is_none());
    assert!(
        cache
            .member(
                GuildId::new(2).expect("non zero"),
                UserId::new(4).expect("non zero"),
            )
            .is_none()
    );
}

#[test]
fn snapshot_replaces_children() {
    let mut cache = InMemoryCache::new();
    cache.update(&Event::GuildCreate(Box::new(guild_with_channels(1, &[10, 11]))));
    let ids = cache.guild_channels(GuildId::new(1).expect("non zero")).unwrap();
    assert_eq!(ids.len(), 2);
    assert!(cache.guild_channel(ChannelId::new(10).expect("non zero")).is_some());

    cache.update(&Event::GuildCreate(Box::new(guild_with_channels(1, &[11, 12]))));
    let mut ids: Vec<u64> = cache
        .guild_channels(GuildId::new(1).expect("non zero"))
        .unwrap()
        .iter()
        .map(|c| c.get())
        .collect();
    ids.sort();
    assert_eq!(ids, vec![11, 12]);
    assert!(cache.guild_channel(ChannelId::new(10).expect("non zero")).is_none());
    assert!(cache.guild_channel(ChannelId::new(11).expect("non zero")).is_some());
    assert!(cache.guild_channel(ChannelId::new(12).expect("non zero")).is_some());
}

#[test]
fn channel_create_is_idempotent() {
    let mut cache = InMemoryCache::new();
    let event = Event::ChannelCreate(Channel::Guild(channel(10, 1)));
    cache.update(&event);
    let first = cache.guild_channels(GuildId::new(1).expect("non zero")).unwrap().len();
    cache.update(&event);
    let second = cache.guild_channels(GuildId::new(1).expect("non zero")).unwrap().len();
    assert_eq!(first, 1);
    assert_eq!(second, 1);
}

#[test]
fn role_upsert_is_idempotent() {
    let mut cache = InMemoryCache::new();
    let event = Event::RoleCreate(RoleCreate {
        guild_id: GuildId::new(1).expect("non zero"),
        role: role(8),
    });
    cache.update(&event);
    cache.update(&event);
    let roles = cache.guild_roles(GuildId::new(1).expect("non zero")).unwrap();
    assert_eq!(roles.len(), 1);
    let stored = cache.role(RoleId::new(8).expect("non zero")).unwrap();
    assert_eq!(stored.name, "role name");
}

#[test]
fn presence_gating_keeps_table_empty() {
    let mut cache = InMemoryCache::builder()
        .resource_types(RESOURCE_ALL & !RESOURCE_PRESENCE)
        .build();
    cache.update(&Event::PresenceUpdate(Box::new(Presence {
        guild_id: GuildId::new(1).expect("non zero"),
        status: Status::Online,
        user_id: UserId::new(2).expect("non zero"),
    })));
    assert!(
        cache
            .presence(
                GuildId::new(1).expect("non zero"),
                UserId::new(2).expect("non zero"),
            )
            .is_none()
    );
    assert!(cache.guild_presences(GuildId::new(1).expect("non zero")).is_none());
}

#[test]
fn bounded_window_evicts_oldest() {
    let mut cache = InMemoryCache::builder().message_cache_size(3).build();
    let ch = 5;
    for (i, text) in [(21, "m1"), (22, "m2"), (23, "m3"), (24, "m4")] {
        cache.update(&Event::MessageCreate(Box::new(message(i, ch, 7, text))));
    }
    let channel_id = ChannelId::new(ch).expect("non zero");
    assert!(cache.message(channel_id, MessageId::new(21).expect("non zero")).is_none());
    let m2 = cache.message(channel_id, MessageId::new(22).expect("non zero")).unwrap();
    let m3 = cache.message(channel_id, MessageId::new(23).expect("non zero")).unwrap();
    let m4 = cache.message(channel_id, MessageId::new(24).expect("non zero")).unwrap();
    assert_eq!(m2.content, "m2");
    assert_eq!(m3.content, "m3");
    assert_eq!(m4.content, "m4");
}

#[test]
fn zero_capacity_disables_window() {
    let mut cache = InMemoryCache::builder().message_cache_size(0).build();
    cache.update(&Event::MessageCreate(Box::new(message(21, 5, 7, "m1"))));
    assert!(
        cache
            .message(
                ChannelId::new(5).expect("non zero"),
                MessageId::new(21).expect("non zero"),
            )
            .is_none()
    );
}

#[test]
fn message_delete_removes_entry() {
    let mut cache = InMemoryCache::new();
    cache.update(&Event::MessageCreate(Box::new(message(21, 5, 7, "m1"))));
    cache.update(&Event::MessageDelete(MessageDelete {
        channel_id: ChannelId::new(5).expect("non zero"),
        id: MessageId::new(21).expect("non zero"),
    }));
    assert!(
        cache
            .message(
                ChannelId::new(5).expect("non zero"),
                MessageId::new(21).expect("non zero"),
            )
            .is_none()
    );
}

#[test]
fn cascade_delete_removes_children() {
    let mut cache = InMemoryCache::new();
    let mut guild = guild_with_channels(1, &[10]);
    guild.roles.push(role(8));
    guild.members.push(member(4, 1));
    cache.update(&Event::GuildCreate(Box::new(guild)));
    assert!(cache.guild(GuildId::new(1).expect("non zero")).is_some());
    assert!(
        cache
            .member(
                GuildId::new(1).expect("non zero"),
                UserId::new(4).expect("non zero"),
            )
            .is_some()
    );

    cache.update(&Event::GuildDelete(Box::new(GuildDelete {
        id: GuildId::new(1).expect("non zero"),
        unavailable: false,
    })));

    assert!(cache.guild(GuildId::new(1).expect("non zero")).is_none());
    assert!(cache.guild_channel(ChannelId::new(10).expect("non zero")).is_none());
    assert!(cache.role(RoleId::new(8).expect("non zero")).is_none());
    assert!(
        cache
            .member(
                GuildId::new(1).expect("non zero"),
                UserId::new(4).expect("non zero"),
            )
            .is_none()
    );
    assert!(cache.guild_channels(GuildId::new(1).expect("non zero")).is_none());
    assert!(cache.guild_roles(GuildId::new(1).expect("non zero")).is_none());
    assert!(cache.guild_members(GuildId::new(1).expect("non zero")).is_none());
    // the user was only referenced by this guild, so it is gone too
    assert!(cache.user(UserId::new(4).expect("non zero")).is_none());
}

#[test]
fn member_adds_are_order_independent() {
    let mut forward = InMemoryCache::new();
    let mut backward = InMemoryCache::new();
    let events: Vec<Event> = (1..=4)
        .map(|i| Event::MemberAdd(Box::new(member(i, 9))))
        .collect();
    for event in &events {
        forward.update(event);
    }
    for event in events.iter().rev() {
        backward.update(event);
    }
    let guild = GuildId::new(9).expect("non zero");
    let mut a: Vec<u64> = forward.guild_members(guild).unwrap().iter().map(|u| u.get()).collect();
    let mut b: Vec<u64> = backward.guild_members(guild).unwrap().iter().map(|u| u.get()).collect();
    a.sort();
    b.sort();
    assert_eq!(a, vec![1, 2, 3, 4]);
    assert_eq!(a, b);
    for i in 1..=4 {
        assert!(forward.member(guild, UserId::new(i).expect("non zero")).is_some());
        assert!(backward.member(guild, UserId::new(i).expect("non zero")).is_some());
    }
}

#[test]
fn partial_member_update_merges_nick() {
    let mut cache = InMemoryCache::new();
    let mut m = member(4, 9);
    m.nick = Some(String::from("old nick"));
    m.deaf = true;
    cache.update(&Event::MemberAdd(Box::new(m)));

    cache.update(&Event::MemberUpdate(Box::new(MemberUpdate {
        deaf: None,
        guild_id: GuildId::new(9).expect("non zero"),
        joined_at: None,
        mute: None,
        nick: Some(String::from("new nick")),
        pending: None,
        premium_since: None,
        roles: None,
        user_id: UserId::new(4).expect("non zero"),
    })));

    let stored = cache
        .member(
            GuildId::new(9).expect("non zero"),
            UserId::new(4).expect("non zero"),
        )
        .unwrap();
    assert_eq!(stored.nick, Some(String::from("new nick")));
    assert_eq!(stored.deaf, Some(true));
    assert_eq!(stored.joined_at, Some(String::from("joined at")));
    assert_eq!(stored.mute, Some(false));
}

#[test]
fn member_update_for_unknown_member_is_dropped() {
    let mut cache = InMemoryCache::new();
    cache.update(&Event::MemberUpdate(Box::new(MemberUpdate {
        deaf: None,
        guild_id: GuildId::new(9).expect("non zero"),
        joined_at: None,
        mute: None,
        nick: Some(String::from("new nick")),
        pending: None,
        premium_since: None,
        roles: None,
        user_id: UserId::new(4).expect("non zero"),
    })));
    assert!(
        cache
            .member(
                GuildId::new(9).expect("non zero"),
                UserId::new(4).expect("non zero"),
            )
            .is_none()
    );
}

#[test]
fn member_remove_releases_user() {
    let mut cache = InMemoryCache::new();
    cache.update(&Event::MemberAdd(Box::new(member(4, 1))));
    cache.update(&Event::MemberAdd(Box::new(member(4, 2))));
    cache.update(&Event::MemberRemove(twilight::gateway::MemberRemove {
        guild_id: GuildId::new(1).expect("non zero"),
        user_id: UserId::new(4).expect("non zero"),
    }));
    // still referenced by the second guild
    assert!(cache.user(UserId::new(4).expect("non zero")).is_some());
    cache.update(&Event::MemberRemove(twilight::gateway::MemberRemove {
        guild_id: GuildId::new(2).expect("non zero"),
        user_id: UserId::new(4).expect("non zero"),
    }));
    assert!(cache.user(UserId::new(4).expect("non zero")).is_none());
}

#[test]
fn ids_reject_zero() {
    assert!(GuildId::new(0).is_none());
    assert!(ChannelId::new(0).is_none());
    assert!(UserId::new(0).is_none());
    assert_eq!(GuildId::new(7).expect("non zero").get(), 7);
    assert_eq!(twilight::oauth::TeamId::new(0), None);
    assert_eq!(twilight::oauth::TeamId::new(5).expect("non zero").get(), 5);
}

#[test]
fn voice_state_update_maintains_both_indexes() {
    let mut cache = InMemoryCache::new();
    let vs = twilight::voice::VoiceState {
        channel_id: Some(ChannelId::new(30).expect("non zero")),
        deaf: false,
        guild_id: Some(GuildId::new(1).expect("non zero")),
        mute: false,
        self_deaf: false,
        self_mute: false,
        self_stream: false,
        session_id: String::from("session"),
        suppress: false,
        token: None,
        user_id: UserId::new(4).expect("non zero"),
    };
    cache.update(&Event::VoiceStateUpdate(Box::new(vs.clone())));
    assert!(
        cache
            .voice_state(
                UserId::new(4).expect("non zero"),
                GuildId::new(1).expect("non zero"),
            )
            .is_some()
    );
    let in_channel = cache
        .voice_channel_states(ChannelId::new(30).expect("non zero"))
        .unwrap();
    assert_eq!(in_channel.len(), 1);
    assert_eq!(in_channel[0].session_id, "session");

    // moving to another channel unlinks the old channel's set
    let mut moved = vs.clone();
    moved.channel_id = Some(ChannelId::new(31).expect("non zero"));
    cache.update(&Event::VoiceStateUpdate(Box::new(moved)));
    let old_channel = cache
        .voice_channel_states(ChannelId::new(30).expect("non zero"))
        .unwrap();
    assert_eq!(old_channel.len(), 0);
    let new_channel = cache
        .voice_channel_states(ChannelId::new(31).expect("non zero"))
        .unwrap();
    assert_eq!(new_channel.len(), 1);

    // leaving voice removes the state entirely
    let mut left = vs;
    left.channel_id = None;
    cache.update(&Event::VoiceStateUpdate(Box::new(left)));
    assert!(
        cache
            .voice_state(
                UserId::new(4).expect("non zero"),
                GuildId::new(1).expect("non zero"),
            )
            .is_none()
    );
}


#[test]
fn test_interaction_create() {
    let mut cache = InMemoryCache::new();
    cache.update(&Event::InteractionCreate(Box::new(InteractionCreate(
        Interaction::ApplicationCommand(Box::new(ApplicationCommand {
            channel_id: ChannelId::new(2).expect("non zero"),
            data: CommandData {
                id: CommandId::new(5).expect("non zero"),
                name: String::from("command name"),
                resolved: Some(CommandInteractionDataResolved {
                    members: vec![InteractionMember {
                        id: UserId::new(7).expect("non zero"),
                        joined_at: Some(String::from("joined at date")),
                        nick: None,
                        premium_since: None,
                        roles: vec![RoleId::new(8).expect("non zero")],
                    }],
                    roles: vec![Role {
                        color: 0,
                        hoist: false,
                        id: RoleId::new(8).expect("non zero"),
                        managed: false,
                        mentionable: true,
                        name: String::from("role name"),
                        permissions: 0,
                        position: 2,
                        tags: None,
                    }],
                    users: vec![User {
                        avatar: Some(String::from("different avatar")),
                        bot: false,
                        discriminator: String::from("5678"),
                        email: None,
                        flags: None,
                        id: UserId::new(7).expect("non zero"),
                        locale: None,
                        mfa_enabled: None,
                        name: String::from("different name"),
                        premium_type: None,
                        public_flags: None,
                        system: None,
                        verified: None,
                    }],
                }),
            },
            guild_id: Some(GuildId::new(3).expect("non zero")),
            id: InteractionId::new(4).expect("non zero"),
            member: Some(PartialMember {
                deaf: false,
                joined_at: Some(String::from("joined at")),
                mute: false,
                nick: None,
                premium_since: None,
                roles: Vec::new(),
                user: Some(User {
                    avatar: Some(String::from("avatar string")),
                    bot: false,
                    discriminator: String::from("1234"),
                    email: None,
                    flags: None,
                    id: UserId::new(6).expect("non zero"),
                    locale: None,
                    mfa_enabled: None,
                    name: String::from("username"),
                    premium_type: None,
                    public_flags: None,
                    system: None,
                    verified: None,
                }),
            }),
            user: None,
        })),
    ))));

    {
        let guild_members = cache
            .guild_members(GuildId::new(3).expect("non zero"))
            .unwrap();
        assert_eq!(guild_members.len(), 2);
    }

    {
        let member = cache
            .member(
                GuildId::new(3).expect("non zero"),
                UserId::new(6).expect("non zero"),
            )
            .unwrap();
        let stored = cache.user(member.user_id).unwrap();
        assert_eq!(stored.avatar.unwrap(), "avatar string");
    }

    {
        let member = cache
            .member(
                GuildId::new(3).expect("non zero"),
                UserId::new(7).expect("non zero"),
            )
            .unwrap();
        let stored = cache.user(member.user_id).unwrap();
        assert_eq!(stored.avatar.unwrap(), "different avatar");
    }

    {
        let guild_roles = cache
            .guild_roles(GuildId::new(3).expect("non zero"))
            .unwrap();
        assert_eq!(guild_roles.len(), 1);
    }
}
