//! The closed set of gateway events that the cache can ingest, and the
//! payloads they carry.
//!
//! Every state change the remote service can emit has a variant here;
//! connection-lifecycle notifications are included so that ingestion is a
//! total function, even where the handler is a no-op.

use vstd::prelude::*;
use crate::channel::Channel;
use crate::channel::GuildChannel;
use crate::channel::StageInstance;
use crate::guild::CachedGuild;
use crate::guild::GuildIntegration;
use crate::guild::PartialMember;
use crate::guild::Role;
use crate::guild::UnavailableGuild;
use crate::id::ChannelId;
use crate::id::CommandId;
use crate::id::EmojiId;
use crate::id::GuildId;
use crate::id::IntegrationId;
use crate::id::InteractionId;
use crate::id::MessageId;
use crate::id::RoleId;
use crate::id::UserId;
use crate::model::Status;
use crate::oauth::PartialApplication;
use crate::user::CurrentUser;
use crate::user::User;
use crate::voice::VoiceState;

verus! {

/// A member payload carrying the full user record.
pub struct Member {
    pub deaf: bool,
    pub guild_id: GuildId,
    pub joined_at: Option<String>,
    pub mute: bool,
    pub nick: Option<String>,
    pub pending: bool,
    pub premium_since: Option<String>,
    pub roles: Vec<RoleId>,
    pub user: User,
}

/// An emoji payload carrying the uploader, when known.
pub struct Emoji {
    pub animated: bool,
    pub available: bool,
    pub id: EmojiId,
    pub managed: bool,
    pub name: String,
    pub require_colons: bool,
    pub roles: Vec<RoleId>,
    pub user: Option<User>,
}

/// A presence payload.
#[derive(Clone, Copy, Debug, PartialEq, Eq, Structural)]
pub struct Presence {
    pub guild_id: GuildId,
    pub status: Status,
    pub user_id: UserId,
}

/// A message payload carrying the full author record.
pub struct Message {
    pub author: User,
    pub channel_id: ChannelId,
    pub content: String,
    pub guild_id: Option<GuildId>,
    pub id: MessageId,
    pub pinned: bool,
    pub timestamp: Option<String>,
}

/// A full guild aggregate: the guild's own fields together with the complete
/// current state of every listed child collection.
pub struct Guild {
    pub channels: Vec<GuildChannel>,
    pub description: Option<String>,
    pub emojis: Vec<Emoji>,
    pub icon: Option<String>,
    pub id: GuildId,
    pub member_count: Option<u64>,
    pub members: Vec<Member>,
    pub name: String,
    pub owner_id: UserId,
    pub presences: Vec<Presence>,
    pub roles: Vec<Role>,
    pub stage_instances: Vec<StageInstance>,
    pub unavailable: bool,
}

impl Guild {
    /// The guild's own fields, without the children.
    pub fn to_cached(&self) -> (r: CachedGuild)
        ensures
            r@.description == crate::util::opt_string_view(self.description),
            r@.icon == crate::util::opt_string_view(self.icon),
            r@.id == self.id@,
            r@.member_count == self.member_count,
            r@.name == self.name@,
            r@.owner_id == self.owner_id@,
            r@.unavailable == self.unavailable,
    {
        CachedGuild {
            description: crate::util::clone_opt_string(&self.description),
            icon: crate::util::clone_opt_string(&self.icon),
            id: self.id,
            member_count: self.member_count,
            name: self.name.clone(),
            owner_id: self.owner_id,
            unavailable: self.unavailable,
        }
    }
}

/// A partial guild update: only the guild's own fields, merged into the
/// cached record.
pub struct GuildUpdate {
    pub description: Option<String>,
    pub icon: Option<String>,
    pub id: GuildId,
    pub member_count: Option<u64>,
    pub name: String,
    pub owner_id: UserId,
}

/// Notification that a guild was deleted or became unavailable.
#[derive(Clone, Copy, Debug, PartialEq, Eq, Structural)]
pub struct GuildDelete {
    pub id: GuildId,
    /// When set, the guild still exists but cannot be reached.
    pub unavailable: bool,
}

/// A full replacement of a guild's emoji collection.
pub struct GuildEmojisUpdate {
    pub emojis: Vec<Emoji>,
    pub guild_id: GuildId,
}

/// Timestamps of the latest pin in a channel.
pub struct ChannelPinsUpdate {
    pub channel_id: ChannelId,
    pub guild_id: Option<GuildId>,
    pub last_pin_timestamp: Option<String>,
}

/// A new or refreshed integration of a guild.
pub struct IntegrationCreate {
    pub guild_id: GuildId,
    pub integration: GuildIntegration,
}

/// An updated integration of a guild.
pub struct IntegrationUpdate {
    pub guild_id: GuildId,
    pub integration: GuildIntegration,
}

/// Removal of an integration from a guild.
#[derive(Clone, Copy, Debug, PartialEq, Eq, Structural)]
pub struct IntegrationDelete {
    pub guild_id: GuildId,
    pub id: IntegrationId,
}

/// Removal of a member from a guild.
#[derive(Clone, Copy, Debug, PartialEq, Eq, Structural)]
pub struct MemberRemove {
    pub guild_id: GuildId,
    pub user_id: UserId,
}

/// A partial update of a member: absent fields leave the stored record
/// untouched.
pub struct MemberUpdate {
    pub deaf: Option<bool>,
    pub guild_id: GuildId,
    pub joined_at: Option<String>,
    pub mute: Option<bool>,
    pub nick: Option<String>,
    pub pending: Option<bool>,
    pub premium_since: Option<String>,
    pub roles: Option<Vec<RoleId>>,
    pub user_id: UserId,
}

/// A chunk of members, sent in response to a member request.
pub struct MemberChunk {
    pub guild_id: GuildId,
    pub members: Vec<Member>,
}

/// Deletion of a single message.
#[derive(Clone, Copy, Debug, PartialEq, Eq, Structural)]
pub struct MessageDelete {
    pub channel_id: ChannelId,
    pub id: MessageId,
}

/// Deletion of several messages of one channel at once.
pub struct MessageDeleteBulk {
    pub channel_id: ChannelId,
    pub ids: Vec<MessageId>,
}

/// A partial update of a message: absent fields leave the stored record
/// untouched.
pub struct MessageUpdate {
    pub channel_id: ChannelId,
    pub content: Option<String>,
    pub id: MessageId,
    pub pinned: Option<bool>,
}

/// A reaction added to or removed from a message.
pub struct GatewayReaction {
    pub channel_id: ChannelId,
    /// The emoji, either its unicode text or the name of a custom emoji.
    pub emoji: String,
    pub guild_id: Option<GuildId>,
    pub message_id: MessageId,
    pub user_id: UserId,
}

/// Removal of all reactions from a message.
#[derive(Clone, Copy, Debug, PartialEq, Eq, Structural)]
pub struct ReactionRemoveAll {
    pub channel_id: ChannelId,
    pub guild_id: Option<GuildId>,
    pub message_id: MessageId,
}

/// Removal of all reactions with one emoji from a message.
pub struct ReactionRemoveEmoji {
    pub channel_id: ChannelId,
    pub emoji: String,
    pub guild_id: Option<GuildId>,
    pub message_id: MessageId,
}

/// The gateway's initial state payload.
pub struct Ready {
    pub application: PartialApplication,
    pub guilds: Vec<UnavailableGuild>,
    pub session_id: String,
    pub shard: Option<[u64; 2]>,
    pub user: CurrentUser,
    pub version: u64,
}

/// A new or updated role of a guild.
pub struct RoleCreate {
    pub guild_id: GuildId,
    pub role: Role,
}

/// An updated role of a guild.
pub struct RoleUpdate {
    pub guild_id: GuildId,
    pub role: Role,
}

/// Removal of a role from a guild.
#[derive(Clone, Copy, Debug, PartialEq, Eq, Structural)]
pub struct RoleDelete {
    pub guild_id: GuildId,
    pub role_id: RoleId,
}

/// The member and user records resolved for a command interaction.
pub struct CommandInteractionDataResolved {
    pub members: Vec<InteractionMember>,
    pub roles: Vec<Role>,
    pub users: Vec<User>,
}

/// A member record as resolved for an interaction; its user record travels
/// separately in the resolved users.
pub struct InteractionMember {
    pub id: UserId,
    pub joined_at: Option<String>,
    pub nick: Option<String>,
    pub premium_since: Option<String>,
    pub roles: Vec<RoleId>,
}

/// The data of an application command invocation.
pub struct CommandData {
    pub id: CommandId,
    pub name: String,
    pub resolved: Option<CommandInteractionDataResolved>,
}

/// An application command interaction.
pub struct ApplicationCommand {
    pub channel_id: ChannelId,
    pub data: CommandData,
    pub guild_id: Option<GuildId>,
    pub id: InteractionId,
    pub member: Option<PartialMember>,
    pub user: Option<User>,
}

/// An interaction sent by the gateway.
pub enum Interaction {
    ApplicationCommand(Box<ApplicationCommand>),
    Ping(InteractionId),
}

/// A new interaction.
pub struct InteractionCreate(pub Interaction);

/// A user was banned from a guild.
#[derive(Clone, Copy, Debug, PartialEq, Eq, Structural)]
pub struct BanAdd {
    pub guild_id: GuildId,
    pub user_id: UserId,
}

/// A user's ban was lifted.
#[derive(Clone, Copy, Debug, PartialEq, Eq, Structural)]
pub struct BanRemove {
    pub guild_id: GuildId,
    pub user_id: UserId,
}

/// A guild's integrations changed; the new state must be fetched separately.
#[derive(Clone, Copy, Debug, PartialEq, Eq, Structural)]
pub struct GuildIntegrationsUpdate {
    pub guild_id: GuildId,
}

/// An invite was created.
pub struct InviteCreate {
    pub channel_id: ChannelId,
    pub code: String,
    pub guild_id: GuildId,
}

/// An invite was deleted.
pub struct InviteDelete {
    pub channel_id: ChannelId,
    pub code: String,
    pub guild_id: GuildId,
}

/// A user started typing in a channel.
#[derive(Clone, Copy, Debug, PartialEq, Eq, Structural)]
pub struct TypingStart {
    pub channel_id: ChannelId,
    pub guild_id: Option<GuildId>,
    pub user_id: UserId,
}

/// The guild's voice server changed.
pub struct VoiceServerUpdate {
    pub endpoint: Option<String>,
    pub guild_id: Option<GuildId>,
    pub token: String,
}

/// A channel's webhooks changed; the new state must be fetched separately.
#[derive(Clone, Copy, Debug, PartialEq, Eq, Structural)]
pub struct WebhooksUpdate {
    pub channel_id: ChannelId,
    pub guild_id: Option<GuildId>,
}

/// A shard's connection state changed.
#[derive(Clone, Copy, Debug, PartialEq, Eq, Structural)]
pub struct ShardState {
    pub shard_id: u64,
}

/// A raw payload received by a shard.
pub struct ShardPayload {
    pub bytes: Vec<u8>,
}

/// Any event that the gateway can deliver.
///
/// The set is closed: the dispatcher matches it exhaustively, so a newly
/// added kind cannot silently fall through.
pub enum Event {
    BanAdd(BanAdd),
    BanRemove(BanRemove),
    ChannelCreate(Channel),
    ChannelDelete(Channel),
    ChannelPinsUpdate(ChannelPinsUpdate),
    ChannelUpdate(Channel),
    GatewayHeartbeat(u64),
    GatewayHeartbeatAck,
    GatewayHello(u64),
    GatewayInvalidateSession(bool),
    GatewayReconnect,
    GiftCodeUpdate,
    GuildCreate(Box<Guild>),
    GuildDelete(Box<GuildDelete>),
    GuildEmojisUpdate(GuildEmojisUpdate),
    GuildIntegrationsUpdate(GuildIntegrationsUpdate),
    GuildUpdate(Box<GuildUpdate>),
    IntegrationCreate(Box<IntegrationCreate>),
    IntegrationDelete(IntegrationDelete),
    IntegrationUpdate(Box<IntegrationUpdate>),
    InteractionCreate(Box<InteractionCreate>),
    InviteCreate(Box<InviteCreate>),
    InviteDelete(InviteDelete),
    MemberAdd(Box<Member>),
    MemberRemove(MemberRemove),
    MemberUpdate(Box<MemberUpdate>),
    MemberChunk(MemberChunk),
    MessageCreate(Box<Message>),
    MessageDelete(MessageDelete),
    MessageDeleteBulk(MessageDeleteBulk),
    MessageUpdate(Box<MessageUpdate>),
    PresenceUpdate(Box<Presence>),
    PresencesReplace,
    ReactionAdd(Box<GatewayReaction>),
    ReactionRemove(Box<GatewayReaction>),
    ReactionRemoveAll(ReactionRemoveAll),
    ReactionRemoveEmoji(ReactionRemoveEmoji),
    Ready(Box<Ready>),
    Resumed,
    RoleCreate(RoleCreate),
    RoleDelete(RoleDelete),
    RoleUpdate(RoleUpdate),
    ShardConnected(ShardState),
    ShardConnecting(ShardState),
    ShardDisconnected(ShardState),
    ShardIdentifying(ShardState),
    ShardReconnecting(ShardState),
    ShardPayload(ShardPayload),
    ShardResuming(ShardState),
    StageInstanceCreate(StageInstance),
    StageInstanceDelete(StageInstance),
    StageInstanceUpdate(StageInstance),
    TypingStart(Box<TypingStart>),
    UnavailableGuild(UnavailableGuild),
    UserUpdate(CurrentUser),
    VoiceServerUpdate(VoiceServerUpdate),
    VoiceStateUpdate(Box<VoiceState>),
    WebhooksUpdate(WebhooksUpdate),
}

} // verus!
