//! Guilds and the entities they own: roles, integrations, and markers for
//! guilds that are currently unavailable.

use vstd::prelude::*;
use crate::id::ApplicationId;
use crate::id::GuildId;
use crate::id::IntegrationId;
use crate::id::RoleId;
use crate::id::UserId;
use crate::user::User;
use crate::util::clone_opt_string;
use crate::util::clone_vec_copy;
use crate::util::id_seq_view;
use crate::util::opt_string_view;

verus! {

/// Tags that qualify a role.
#[derive(Clone, Copy, Debug, PartialEq, Eq, Structural)]
pub struct RoleTags {
    pub bot_id: Option<UserId>,
    pub integration_id: Option<IntegrationId>,
    pub premium_subscriber: bool,
}

/// A guild role and the permissions it grants.
pub struct Role {
    pub color: u32,
    pub hoist: bool,
    pub id: RoleId,
    pub managed: bool,
    pub mentionable: bool,
    pub name: String,
    /// Permission bitmask granted guild-wide by this role.
    pub permissions: u64,
    pub position: i64,
    pub tags: Option<RoleTags>,
}

/// The mathematical value of a [`Role`].
#[verifier::ext_equal]
pub struct RoleView {
    pub color: u32,
    pub hoist: bool,
    pub id: u64,
    pub managed: bool,
    pub mentionable: bool,
    pub name: Seq<char>,
    pub permissions: u64,
    pub position: i64,
    pub tags: Option<RoleTags>,
}

impl View for Role {
    type V = RoleView;

    open spec fn view(&self) -> RoleView {
        RoleView {
            color: self.color,
            hoist: self.hoist,
            id: self.id@,
            managed: self.managed,
            mentionable: self.mentionable,
            name: self.name@,
            permissions: self.permissions,
            position: self.position,
            tags: self.tags,
        }
    }
}

impl Clone for Role {
    fn clone(&self) -> (r: Self)
        ensures
            r@ == self@,
    {
        Role {
            color: self.color,
            hoist: self.hoist,
            id: self.id,
            managed: self.managed,
            mentionable: self.mentionable,
            name: self.name.clone(),
            permissions: self.permissions,
            position: self.position,
            tags: self.tags,
        }
    }
}

/// An integration that a guild has installed.
pub struct GuildIntegration {
    pub enabled: bool,
    pub id: IntegrationId,
    pub kind: String,
    pub name: String,
}

/// The mathematical value of a [`GuildIntegration`].
#[verifier::ext_equal]
pub struct GuildIntegrationView {
    pub enabled: bool,
    pub id: u64,
    pub kind: Seq<char>,
    pub name: Seq<char>,
}

impl View for GuildIntegration {
    type V = GuildIntegrationView;

    open spec fn view(&self) -> GuildIntegrationView {
        GuildIntegrationView {
            enabled: self.enabled,
            id: self.id@,
            kind: self.kind@,
            name: self.name@,
        }
    }
}

impl Clone for GuildIntegration {
    fn clone(&self) -> (r: Self)
        ensures
            r@ == self@,
    {
        GuildIntegration {
            enabled: self.enabled,
            id: self.id,
            kind: self.kind.clone(),
            name: self.name.clone(),
        }
    }
}

/// Marker for a guild that the gateway has reported as unavailable.
#[derive(Clone, Copy, Debug, PartialEq, Eq, Structural)]
pub struct UnavailableGuild {
    pub id: GuildId,
    pub unavailable: bool,
}

/// The application attached to a guild integration.
pub struct IntegrationApplication {
    pub bot: Option<User>,
    pub description: String,
    pub icon: Option<String>,
    pub id: ApplicationId,
    pub name: String,
    pub summary: String,
}

/// A member payload that lacks the full user record, as carried by
/// interactions.
pub struct PartialMember {
    pub deaf: bool,
    pub joined_at: Option<String>,
    pub mute: bool,
    pub nick: Option<String>,
    pub premium_since: Option<String>,
    pub roles: Vec<RoleId>,
    pub user: Option<User>,
}

/// The mathematical value of a [`PartialMember`].
#[verifier::ext_equal]
pub struct PartialMemberView {
    pub deaf: bool,
    pub joined_at: Option<Seq<char>>,
    pub mute: bool,
    pub nick: Option<Seq<char>>,
    pub premium_since: Option<Seq<char>>,
    pub roles: Seq<u64>,
}

impl View for PartialMember {
    type V = PartialMemberView;

    open spec fn view(&self) -> PartialMemberView {
        PartialMemberView {
            deaf: self.deaf,
            joined_at: opt_string_view(self.joined_at),
            mute: self.mute,
            nick: opt_string_view(self.nick),
            premium_since: opt_string_view(self.premium_since),
            roles: id_seq_view(self.roles@),
        }
    }
}

/// A guild as the cache stores it: the aggregate's own fields, with the
/// children held in their own tables.
pub struct CachedGuild {
    pub description: Option<String>,
    pub icon: Option<String>,
    pub id: GuildId,
    pub member_count: Option<u64>,
    pub name: String,
    pub owner_id: UserId,
    pub unavailable: bool,
}

/// The mathematical value of a [`CachedGuild`].
#[verifier::ext_equal]
pub struct CachedGuildView {
    pub description: Option<Seq<char>>,
    pub icon: Option<Seq<char>>,
    pub id: u64,
    pub member_count: Option<u64>,
    pub name: Seq<char>,
    pub owner_id: u64,
    pub unavailable: bool,
}

impl View for CachedGuild {
    type V = CachedGuildView;

    open spec fn view(&self) -> CachedGuildView {
        CachedGuildView {
            description: opt_string_view(self.description),
            icon: opt_string_view(self.icon),
            id: self.id@,
            member_count: self.member_count,
            name: self.name@,
            owner_id: self.owner_id@,
            unavailable: self.unavailable,
        }
    }
}

impl Clone for CachedGuild {
    fn clone(&self) -> (r: Self)
        ensures
            r@ == self@,
    {
        CachedGuild {
            description: clone_opt_string(&self.description),
            icon: clone_opt_string(&self.icon),
            id: self.id,
            member_count: self.member_count,
            name: self.name.clone(),
            owner_id: self.owner_id,
            unavailable: self.unavailable,
        }
    }
}

/// A member of a guild, as the cache stores it.
pub struct CachedMember {
    pub deaf: Option<bool>,
    pub guild_id: GuildId,
    pub joined_at: Option<String>,
    pub mute: Option<bool>,
    pub nick: Option<String>,
    pub pending: bool,
    pub premium_since: Option<String>,
    pub roles: Vec<RoleId>,
    pub user_id: UserId,
}

/// The mathematical value of a [`CachedMember`].
#[verifier::ext_equal]
pub struct CachedMemberView {
    pub deaf: Option<bool>,
    pub guild_id: u64,
    pub joined_at: Option<Seq<char>>,
    pub mute: Option<bool>,
    pub nick: Option<Seq<char>>,
    pub pending: bool,
    pub premium_since: Option<Seq<char>>,
    pub roles: Seq<u64>,
    pub user_id: u64,
}

impl View for CachedMember {
    type V = CachedMemberView;

    open spec fn view(&self) -> CachedMemberView {
        CachedMemberView {
            deaf: self.deaf,
            guild_id: self.guild_id@,
            joined_at: opt_string_view(self.joined_at),
            mute: self.mute,
            nick: opt_string_view(self.nick),
            pending: self.pending,
            premium_since: opt_string_view(self.premium_since),
            roles: id_seq_view(self.roles@),
            user_id: self.user_id@,
        }
    }
}

impl Clone for CachedMember {
    fn clone(&self) -> (r: Self)
        ensures
            r@ == self@,
    {
        let r = CachedMember {
            deaf: self.deaf,
            guild_id: self.guild_id,
            joined_at: clone_opt_string(&self.joined_at),
            mute: self.mute,
            nick: clone_opt_string(&self.nick),
            pending: self.pending,
            premium_since: clone_opt_string(&self.premium_since),
            roles: clone_vec_copy(&self.roles),
            user_id: self.user_id,
        };
        proof {
            assert(id_seq_view(r.roles@) =~= id_seq_view(self.roles@));
        }
        r
    }
}

/// A custom emoji of a guild, as the cache stores it.
pub struct CachedEmoji {
    pub animated: bool,
    pub available: bool,
    pub id: crate::id::EmojiId,
    pub managed: bool,
    pub name: String,
    pub require_colons: bool,
    pub roles: Vec<RoleId>,
    pub user_id: Option<UserId>,
}

/// The mathematical value of a [`CachedEmoji`].
#[verifier::ext_equal]
pub struct CachedEmojiView {
    pub animated: bool,
    pub available: bool,
    pub id: u64,
    pub managed: bool,
    pub name: Seq<char>,
    pub require_colons: bool,
    pub roles: Seq<u64>,
    pub user_id: Option<u64>,
}

impl View for CachedEmoji {
    type V = CachedEmojiView;

    open spec fn view(&self) -> CachedEmojiView {
        CachedEmojiView {
            animated: self.animated,
            available: self.available,
            id: self.id@,
            managed: self.managed,
            name: self.name@,
            require_colons: self.require_colons,
            roles: id_seq_view(self.roles@),
            user_id: match self.user_id {
                Some(u) => Some(u@),
                None => None,
            },
        }
    }
}

impl Clone for CachedEmoji {
    fn clone(&self) -> (r: Self)
        ensures
            r@ == self@,
    {
        let r = CachedEmoji {
            animated: self.animated,
            available: self.available,
            id: self.id,
            managed: self.managed,
            name: self.name.clone(),
            require_colons: self.require_colons,
            roles: clone_vec_copy(&self.roles),
            user_id: self.user_id,
        };
        proof {
            assert(id_seq_view(r.roles@) =~= id_seq_view(self.roles@));
        }
        r
    }
}

} // verus!
