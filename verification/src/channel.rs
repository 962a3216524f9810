//! Channels of every kind, permission overwrites, stage instances, and
//! webhooks.

use vstd::prelude::*;
use crate::id::ApplicationId;
use crate::id::ChannelId;
use crate::id::GuildId;
use crate::id::MessageId;
use crate::id::RoleId;
use crate::id::StageId;
use crate::id::UserId;
use crate::id::WebhookId;
use crate::user::User;
use crate::util::clone_opt_string;
use crate::util::clone_vec_copy;
use crate::util::id_seq_view;
use crate::util::opt_string_view;

verus! {

/// The kind of a channel.
#[derive(Clone, Copy, Debug, PartialEq, Eq, Structural)]
pub enum ChannelType {
    Group,
    GuildCategory,
    GuildNews,
    GuildStageVoice,
    GuildStore,
    GuildText,
    GuildVoice,
    Private,
}

/// Whom a permission overwrite applies to.
#[derive(Clone, Copy, Debug, PartialEq, Eq, Structural)]
pub enum PermissionOverwriteType {
    Member(UserId),
    Role(RoleId),
}

/// A channel-level permission overwrite.
#[derive(Clone, Copy, Debug, PartialEq, Eq, Structural)]
pub struct PermissionOverwrite {
    pub allow: u64,
    pub deny: u64,
    pub kind: PermissionOverwriteType,
}

/// A channel that belongs to a guild.
pub struct GuildChannel {
    pub guild_id: Option<GuildId>,
    pub id: ChannelId,
    pub kind: ChannelType,
    pub last_pin_timestamp: Option<String>,
    pub name: String,
    pub parent_id: Option<ChannelId>,
    pub permission_overwrites: Vec<PermissionOverwrite>,
    pub position: i64,
}

/// The mathematical value of a [`GuildChannel`].
#[verifier::ext_equal]
pub struct GuildChannelView {
    pub guild_id: Option<u64>,
    pub id: u64,
    pub kind: ChannelType,
    pub last_pin_timestamp: Option<Seq<char>>,
    pub name: Seq<char>,
    pub parent_id: Option<u64>,
    pub permission_overwrites: Seq<PermissionOverwrite>,
    pub position: i64,
}

impl View for GuildChannel {
    type V = GuildChannelView;

    open spec fn view(&self) -> GuildChannelView {
        GuildChannelView {
            guild_id: match self.guild_id {
                Some(g) => Some(g@),
                None => None,
            },
            id: self.id@,
            kind: self.kind,
            last_pin_timestamp: opt_string_view(self.last_pin_timestamp),
            name: self.name@,
            parent_id: match self.parent_id {
                Some(p) => Some(p@),
                None => None,
            },
            permission_overwrites: self.permission_overwrites@,
            position: self.position,
        }
    }
}

impl Clone for GuildChannel {
    fn clone(&self) -> (r: Self)
        ensures
            r@ == self@,
    {
        GuildChannel {
            guild_id: self.guild_id,
            id: self.id,
            kind: self.kind,
            last_pin_timestamp: clone_opt_string(&self.last_pin_timestamp),
            name: self.name.clone(),
            parent_id: self.parent_id,
            permission_overwrites: clone_vec_copy(&self.permission_overwrites),
            position: self.position,
        }
    }
}

/// A direct-message channel with a single recipient.
pub struct PrivateChannel {
    pub id: ChannelId,
    pub last_message_id: Option<MessageId>,
    pub last_pin_timestamp: Option<String>,
    pub recipient_id: Option<UserId>,
}

/// The mathematical value of a [`PrivateChannel`].
#[verifier::ext_equal]
pub struct PrivateChannelView {
    pub id: u64,
    pub last_message_id: Option<u64>,
    pub last_pin_timestamp: Option<Seq<char>>,
    pub recipient_id: Option<u64>,
}

impl View for PrivateChannel {
    type V = PrivateChannelView;

    open spec fn view(&self) -> PrivateChannelView {
        PrivateChannelView {
            id: self.id@,
            last_message_id: match self.last_message_id {
                Some(m) => Some(m@),
                None => None,
            },
            last_pin_timestamp: opt_string_view(self.last_pin_timestamp),
            recipient_id: match self.recipient_id {
                Some(u) => Some(u@),
                None => None,
            },
        }
    }
}

impl Clone for PrivateChannel {
    fn clone(&self) -> (r: Self)
        ensures
            r@ == self@,
    {
        PrivateChannel {
            id: self.id,
            last_message_id: self.last_message_id,
            last_pin_timestamp: clone_opt_string(&self.last_pin_timestamp),
            recipient_id: self.recipient_id,
        }
    }
}

/// A group direct-message channel.
pub struct Group {
    pub icon: Option<String>,
    pub id: ChannelId,
    pub last_message_id: Option<MessageId>,
    pub last_pin_timestamp: Option<String>,
    pub name: Option<String>,
    pub owner_id: UserId,
    pub recipient_ids: Vec<UserId>,
}

/// The mathematical value of a [`Group`].
#[verifier::ext_equal]
pub struct GroupView {
    pub icon: Option<Seq<char>>,
    pub id: u64,
    pub last_message_id: Option<u64>,
    pub last_pin_timestamp: Option<Seq<char>>,
    pub name: Option<Seq<char>>,
    pub owner_id: u64,
    pub recipient_ids: Seq<u64>,
}

impl View for Group {
    type V = GroupView;

    open spec fn view(&self) -> GroupView {
        GroupView {
            icon: opt_string_view(self.icon),
            id: self.id@,
            last_message_id: match self.last_message_id {
                Some(m) => Some(m@),
                None => None,
            },
            last_pin_timestamp: opt_string_view(self.last_pin_timestamp),
            name: opt_string_view(self.name),
            owner_id: self.owner_id@,
            recipient_ids: id_seq_view(self.recipient_ids@),
        }
    }
}

impl Clone for Group {
    fn clone(&self) -> (r: Self)
        ensures
            r@ == self@,
    {
        let r = Group {
            icon: clone_opt_string(&self.icon),
            id: self.id,
            last_message_id: self.last_message_id,
            last_pin_timestamp: clone_opt_string(&self.last_pin_timestamp),
            name: clone_opt_string(&self.name),
            owner_id: self.owner_id,
            recipient_ids: clone_vec_copy(&self.recipient_ids),
        };
        proof {
            assert(id_seq_view(r.recipient_ids@) =~= id_seq_view(self.recipient_ids@));
        }
        r
    }
}

/// Any channel, as carried by channel events.
pub enum Channel {
    Group(Group),
    Guild(GuildChannel),
    Private(PrivateChannel),
}

/// The stage instance running in a stage channel.
pub struct StageInstance {
    pub channel_id: ChannelId,
    pub guild_id: GuildId,
    pub id: StageId,
    pub topic: String,
}

/// The mathematical value of a [`StageInstance`].
#[verifier::ext_equal]
pub struct StageInstanceView {
    pub channel_id: u64,
    pub guild_id: u64,
    pub id: u64,
    pub topic: Seq<char>,
}

impl View for StageInstance {
    type V = StageInstanceView;

    open spec fn view(&self) -> StageInstanceView {
        StageInstanceView {
            channel_id: self.channel_id@,
            guild_id: self.guild_id@,
            id: self.id@,
            topic: self.topic@,
        }
    }
}

impl Clone for StageInstance {
    fn clone(&self) -> (r: Self)
        ensures
            r@ == self@,
    {
        StageInstance {
            channel_id: self.channel_id,
            guild_id: self.guild_id,
            id: self.id,
            topic: self.topic.clone(),
        }
    }
}

/// The kind of a webhook.
#[derive(Clone, Copy, Debug, PartialEq, Eq, Structural)]
pub enum WebhookType {
    Application,
    ChannelFollower,
    Incoming,
}

/// The partial channel that a channel-follower webhook follows.
pub struct WebhookChannel {
    pub id: ChannelId,
    pub name: String,
}

/// The partial guild that a channel-follower webhook follows.
pub struct WebhookGuild {
    pub icon: Option<String>,
    pub id: GuildId,
    pub name: String,
}

/// A webhook attached to a channel.
pub struct Webhook {
    pub application_id: Option<ApplicationId>,
    pub avatar: Option<String>,
    pub channel_id: ChannelId,
    pub guild_id: Option<GuildId>,
    pub id: WebhookId,
    pub kind: WebhookType,
    pub name: Option<String>,
    /// Partial channel object that a webhook is following.
    pub source_channel: Option<WebhookChannel>,
    /// Partial guild object that a webhook is following.
    pub source_guild: Option<WebhookGuild>,
    pub token: Option<String>,
    /// Url used for executing the webhook.
    pub url: Option<String>,
    pub user: Option<User>,
}

} // verus!
