//! Calculate the permissions of a member on a guild level or a channel
//! level, from the `@everyone` role, the member's roles, and the channel's
//! permission overwrites.

use vstd::prelude::*;
use crate::channel::ChannelType;
use crate::channel::PermissionOverwrite;
use crate::channel::PermissionOverwriteType;
use crate::id::GuildId;
use crate::id::RoleId;
use crate::id::UserId;

verus! {

/// Create instant invite.
pub const CREATE_INVITE: u64 = 0x1;

/// Kick members.
pub const KICK_MEMBERS: u64 = 0x2;

/// Ban members.
pub const BAN_MEMBERS: u64 = 0x4;

/// Administrator: implicitly grants every permission.
pub const ADMINISTRATOR: u64 = 0x8;

/// Manage channels.
pub const MANAGE_CHANNELS: u64 = 0x10;

/// Manage the guild.
pub const MANAGE_GUILD: u64 = 0x20;

/// Add reactions to messages.
pub const ADD_REACTIONS: u64 = 0x40;

/// View the audit log.
pub const VIEW_AUDIT_LOG: u64 = 0x80;

/// Speak with priority in voice channels.
pub const PRIORITY_SPEAKER: u64 = 0x100;

/// Go live in voice channels.
pub const STREAM: u64 = 0x200;

/// View a channel.
pub const VIEW_CHANNEL: u64 = 0x400;

/// Send messages.
pub const SEND_MESSAGES: u64 = 0x800;

/// Send text-to-speech messages.
pub const SEND_TTS_MESSAGES: u64 = 0x1000;

/// Manage messages.
pub const MANAGE_MESSAGES: u64 = 0x2000;

/// Embed links.
pub const EMBED_LINKS: u64 = 0x4000;

/// Attach files.
pub const ATTACH_FILES: u64 = 0x8000;

/// Read message history.
pub const READ_MESSAGE_HISTORY: u64 = 0x1_0000;

/// Mention everyone.
pub const MENTION_EVERYONE: u64 = 0x2_0000;

/// Use emojis of other guilds.
pub const USE_EXTERNAL_EMOJIS: u64 = 0x4_0000;

/// View guild insights.
pub const VIEW_GUILD_INSIGHTS: u64 = 0x8_0000;

/// Connect to voice channels.
pub const CONNECT: u64 = 0x10_0000;

/// Speak in voice channels.
pub const SPEAK: u64 = 0x20_0000;

/// Mute members in voice channels.
pub const MUTE_MEMBERS: u64 = 0x40_0000;

/// Deafen members in voice channels.
pub const DEAFEN_MEMBERS: u64 = 0x80_0000;

/// Move members between voice channels.
pub const MOVE_MEMBERS: u64 = 0x100_0000;

/// Use voice activity detection.
pub const USE_VAD: u64 = 0x200_0000;

/// Change own nickname.
pub const CHANGE_NICKNAME: u64 = 0x400_0000;

/// Manage nicknames of others.
pub const MANAGE_NICKNAMES: u64 = 0x800_0000;

/// Manage roles.
pub const MANAGE_ROLES: u64 = 0x1000_0000;

/// Manage webhooks.
pub const MANAGE_WEBHOOKS: u64 = 0x2000_0000;

/// Manage emojis.
pub const MANAGE_EMOJIS: u64 = 0x4000_0000;

/// Use slash commands.
pub const USE_SLASH_COMMANDS: u64 = 0x8000_0000;

/// Request to speak in stage channels.
pub const REQUEST_TO_SPEAK: u64 = 0x1_0000_0000;

/// Every permission.
pub const PERMISSIONS_ALL: u64 = 0x1_FFFF_FFFF;

/// Permissions that only make sense on a guild level and are always removed
/// from channel-level results.
pub const PERMISSIONS_ROOT_ONLY: u64 = 0x4c0800ae;

/// Permissions that depend on being able to send messages, removed when Send
/// Messages is denied.
pub const PERMISSIONS_MESSAGING: u64 = 0x2d000;

/// Permissions that a stage channel cannot use.
pub const PERMISSIONS_STAGE_OMIT: u64 = 0xa2a7db40;

/// Permissions that a text channel cannot use.
pub const PERMISSIONS_TEXT_OMIT: u64 = 0x103f00300;

/// Permissions that a voice channel cannot use.
pub const PERMISSIONS_VOICE_OMIT: u64 = 0x1a007f840;

/// Whether a permission set contains every bit of `bits`.
pub open spec fn spec_contains(mask: u64, bits: u64) -> bool {
    mask & bits == bits
}

/// The union of the permissions of a member's roles.
pub open spec fn spec_roles_union(roles: Seq<(RoleId, u64)>) -> u64
    decreases roles.len(),
{
    if roles.len() == 0 {
        0u64
    } else {
        spec_roles_union(roles.drop_last()) | roles.last().1
    }
}

/// Whether any of a member's roles grants the administrator permission.
pub open spec fn spec_any_admin(roles: Seq<(RoleId, u64)>) -> bool {
    exists|i: int| 0 <= i < roles.len() && spec_contains(roles[i].1, ADMINISTRATOR)
}

/// The guild-level permissions of a member: all permissions for the owner or
/// an administrator, otherwise the union of the `@everyone` role's
/// permissions and the member's roles' permissions.
pub open spec fn spec_root(
    guild_id: u64,
    user_id: u64,
    everyone_role: u64,
    member_roles: Seq<(RoleId, u64)>,
    owner_id: Option<u64>,
) -> u64 {
    if owner_id == Some(user_id) {
        PERMISSIONS_ALL
    } else if spec_contains(everyone_role, ADMINISTRATOR) {
        PERMISSIONS_ALL
    } else if spec_any_admin(member_roles) {
        PERMISSIONS_ALL
    } else {
        everyone_role | spec_roles_union(member_roles)
    }
}

/// Whether the member has the given role.
pub open spec fn spec_has_role(roles: Seq<(RoleId, u64)>, role_id: u64) -> bool {
    exists|i: int| 0 <= i < roles.len() && roles[i].0@ == role_id
}

/// The overwrites accumulated over a channel's overwrite list, in order:
/// the running permissions after `@everyone` overwrites, the allow and deny
/// bits of the member's roles' overwrites, and the allow and deny bits of the
/// member's own overwrites.
pub open spec fn spec_accumulate(
    permissions: u64,
    overwrites: Seq<PermissionOverwrite>,
    member_roles: Seq<(RoleId, u64)>,
    guild_id: u64,
    user_id: u64,
) -> (u64, u64, u64, u64, u64)
    decreases overwrites.len(),
{
    if overwrites.len() == 0 {
        (permissions, 0u64, 0u64, 0u64, 0u64)
    } else {
        let acc = spec_accumulate(permissions, overwrites.drop_last(), member_roles, guild_id,
            user_id);
        let o = overwrites.last();
        match o.kind {
            PermissionOverwriteType::Role(role) => {
                if role@ == guild_id {
                    ((acc.0 & !o.deny) | o.allow, acc.1, acc.2, acc.3, acc.4)
                } else if spec_has_role(member_roles, role@) {
                    (acc.0, acc.1 | o.allow, acc.2 | o.deny, acc.3, acc.4)
                } else {
                    acc
                }
            },
            PermissionOverwriteType::Member(member) => {
                if member@ == user_id {
                    (acc.0, acc.1, acc.2, acc.3 | o.allow, acc.4 | o.deny)
                } else {
                    acc
                }
            },
        }
    }
}

/// The channel-level permissions after processing a channel's overwrites:
/// hierarchy is `@everyone` overwrites first, then role overwrites, then
/// member overwrites; a denied View Channel hides everything, and a denied
/// Send Messages removes the messaging permissions.
pub open spec fn spec_process_overwrites(
    permissions: u64,
    overwrites: Seq<PermissionOverwrite>,
    member_roles: Seq<(RoleId, u64)>,
    guild_id: u64,
    user_id: u64,
) -> u64 {
    let acc = spec_accumulate(permissions, overwrites, member_roles, guild_id, user_id);
    let base = acc.0;
    let roles_allow = acc.1;
    let roles_deny = acc.2;
    let member_allow = acc.3;
    let member_deny = acc.4;
    let role_view_denied = spec_contains(roles_deny, VIEW_CHANNEL) && !spec_contains(
        roles_allow,
        VIEW_CHANNEL,
    );
    let user_view_denied = spec_contains(member_deny, VIEW_CHANNEL) && !spec_contains(
        member_allow,
        VIEW_CHANNEL,
    );
    if user_view_denied || role_view_denied {
        0u64
    } else {
        let role_send_denied = spec_contains(roles_deny, SEND_MESSAGES) && !spec_contains(
            roles_allow,
            SEND_MESSAGES,
        );
        let user_send_denied = spec_contains(member_deny, SEND_MESSAGES) && !spec_contains(
            member_allow,
            SEND_MESSAGES,
        );
        let (base1, roles_allow1, member_allow1) = if user_send_denied || role_send_denied {
            (
                base & !PERMISSIONS_MESSAGING,
                roles_allow & !PERMISSIONS_MESSAGING,
                member_allow & !PERMISSIONS_MESSAGING,
            )
        } else {
            (base, roles_allow, member_allow)
        };
        (((base1 & !roles_deny) | roles_allow1) & !member_deny) | member_allow1
    }
}

/// The bits removed from a channel-level result for the channel's type.
pub open spec fn spec_channel_omit(kind: ChannelType) -> u64 {
    match kind {
        ChannelType::GuildStageVoice => PERMISSIONS_STAGE_OMIT,
        ChannelType::GuildText => PERMISSIONS_TEXT_OMIT,
        ChannelType::GuildVoice => PERMISSIONS_VOICE_OMIT,
        _ => 0u64,
    }
}

/// The channel-level permissions of a member.
pub open spec fn spec_in_channel(
    guild_id: u64,
    user_id: u64,
    everyone_role: u64,
    member_roles: Seq<(RoleId, u64)>,
    owner_id: Option<u64>,
    channel_type: ChannelType,
    overwrites: Seq<PermissionOverwrite>,
) -> u64 {
    let root = spec_root(guild_id, user_id, everyone_role, member_roles, owner_id);
    if spec_contains(root, ADMINISTRATOR) {
        PERMISSIONS_ALL
    } else {
        let processed = spec_process_overwrites(
            root & !PERMISSIONS_ROOT_ONLY,
            overwrites,
            member_roles,
            guild_id,
            user_id,
        );
        if processed == 0 {
            0u64
        } else {
            (processed & !PERMISSIONS_ROOT_ONLY) & !spec_channel_omit(channel_type)
        }
    }
}

/// Whether the member has the given role.
pub fn has_role(roles: &[(RoleId, u64)], role_id: RoleId) -> (r: bool)
    ensures
        r == spec_has_role(roles@, role_id@),
{
    let len = roles.len();
    for idx in 0..len
        invariant
            len == roles@.len(),
            forall|i: int| 0 <= i < idx ==> roles@[i].0@ != role_id@,
    {
        if roles[idx].0.get() == role_id.get() {
            return true;
        }
    }
    false
}

/// Applies a channel's permission overwrites to guild-level permissions,
/// honoring the overwrite hierarchy.
pub fn process_permission_overwrites(
    permissions: u64,
    channel_overwrites: &[PermissionOverwrite],
    member_roles: &[(RoleId, u64)],
    configured_guild_id: GuildId,
    configured_user_id: UserId,
) -> (r: u64)
    ensures
        r == spec_process_overwrites(
            permissions,
            channel_overwrites@,
            member_roles@,
            configured_guild_id@,
            configured_user_id@,
        ),
{
    let mut base = permissions;
    let mut member_allow: u64 = 0;
    let mut member_deny: u64 = 0;
    let mut roles_allow: u64 = 0;
    let mut roles_deny: u64 = 0;
    let n = channel_overwrites.len();
    for idx in 0..n
        invariant
            n == channel_overwrites@.len(),
            spec_accumulate(
                permissions,
                channel_overwrites@.take(idx as int),
                member_roles@,
                configured_guild_id@,
                configured_user_id@,
            ) == (base, roles_allow, roles_deny, member_allow, member_deny),
    {
        let overwrite = &channel_overwrites[idx];
        match overwrite.kind {
            PermissionOverwriteType::Role(role) => {
                if role.get() == configured_guild_id.get() {
                    base = (base & !overwrite.deny) | overwrite.allow;
                } else if has_role(member_roles, role) {
                    roles_allow = roles_allow | overwrite.allow;
                    roles_deny = roles_deny | overwrite.deny;
                }
            },
            PermissionOverwriteType::Member(user_id) => {
                if user_id.get() == configured_user_id.get() {
                    member_allow = member_allow | overwrite.allow;
                    member_deny = member_deny | overwrite.deny;
                }
            },
        }
        proof {
            assert(channel_overwrites@.take(idx + 1).drop_last() =~= channel_overwrites@.take(
                idx as int,
            ));
            assert(channel_overwrites@.take(idx + 1).last() == channel_overwrites@[idx as int]);
        }
    }
    proof {
        assert(channel_overwrites@.take(n as int) =~= channel_overwrites@);
    }
    let role_view_denied = roles_deny & VIEW_CHANNEL == VIEW_CHANNEL && !(roles_allow
        & VIEW_CHANNEL == VIEW_CHANNEL);
    let user_view_denied = member_deny & VIEW_CHANNEL == VIEW_CHANNEL && !(member_allow
        & VIEW_CHANNEL == VIEW_CHANNEL);
    if user_view_denied || role_view_denied {
        return 0;
    }
    let role_send_denied = roles_deny & SEND_MESSAGES == SEND_MESSAGES && !(roles_allow
        & SEND_MESSAGES == SEND_MESSAGES);
    let user_send_denied = member_deny & SEND_MESSAGES == SEND_MESSAGES && !(member_allow
        & SEND_MESSAGES == SEND_MESSAGES);
    if user_send_denied || role_send_denied {
        member_allow = member_allow & !PERMISSIONS_MESSAGING;
        roles_allow = roles_allow & !PERMISSIONS_MESSAGING;
        base = base & !PERMISSIONS_MESSAGING;
    }
    (((base & !roles_deny) | roles_allow) & !member_deny) | member_allow
}

/// Calculate the permissions of a member.
///
/// The calculator computes the member's permissions at the guild's root level
/// or in a given channel. The provided member roles should not contain the
/// `@everyone` role; its permissions are passed separately.
#[derive(Clone, Debug, PartialEq, Eq)]
pub struct PermissionCalculator<'a> {
    /// Permissions of the `@everyone` role for the guild.
    everyone_role: u64,
    /// ID of the guild.
    guild_id: GuildId,
    /// The member's roles and their permissions.
    member_roles: &'a [(RoleId, u64)],
    /// ID of the guild's owner, when configured.
    owner_id: Option<UserId>,
    /// ID of the user whose permissions are being calculated.
    user_id: UserId,
}

impl<'a> PermissionCalculator<'a> {
    /// The permissions of the guild's `@everyone` role.
    pub closed spec fn spec_everyone_role(&self) -> u64 {
        self.everyone_role
    }

    /// The guild's id.
    pub closed spec fn spec_guild_id(&self) -> u64 {
        self.guild_id@
    }

    /// The member's roles and their permissions.
    pub closed spec fn spec_member_roles(&self) -> Seq<(RoleId, u64)> {
        self.member_roles@
    }

    /// The configured owner id, if any.
    pub closed spec fn spec_owner_id(&self) -> Option<u64> {
        match self.owner_id {
            Some(o) => Some(o@),
            None => None,
        }
    }

    /// The id of the user whose permissions are calculated.
    pub closed spec fn spec_user_id(&self) -> u64 {
        self.user_id@
    }

    /// Creates a calculator for a member of a guild.
    pub fn new(
        guild_id: GuildId,
        user_id: UserId,
        everyone_role: u64,
        member_roles: &'a [(RoleId, u64)],
    ) -> (r: Self)
        ensures
            r.spec_guild_id() == guild_id@,
            r.spec_user_id() == user_id@,
            r.spec_everyone_role() == everyone_role,
            r.spec_member_roles() == member_roles@,
            r.spec_owner_id() is None,
    {
        PermissionCalculator { everyone_role, guild_id, member_roles, owner_id: None, user_id }
    }

    /// Configures the ID of the guild's owner; the owner holds every
    /// permission.
    pub fn owner_id(self, owner_id: UserId) -> (r: Self)
        ensures
            r.spec_guild_id() == self.spec_guild_id(),
            r.spec_user_id() == self.spec_user_id(),
            r.spec_everyone_role() == self.spec_everyone_role(),
            r.spec_member_roles() == self.spec_member_roles(),
            r.spec_owner_id() == Some(owner_id@),
    {
        PermissionCalculator { owner_id: Some(owner_id), ..self }
    }

    /// Calculates the guild-level permissions of the member.
    pub fn root(&self) -> (r: u64)
        ensures
            r == spec_root(
                self.spec_guild_id(),
                self.spec_user_id(),
                self.spec_everyone_role(),
                self.spec_member_roles(),
                self.spec_owner_id(),
            ),
    {
        match self.owner_id {
            Some(id) => {
                if id.get() == self.user_id.get() {
                    return PERMISSIONS_ALL;
                }
            },
            None => {},
        }
        if self.everyone_role & ADMINISTRATOR == ADMINISTRATOR {
            return PERMISSIONS_ALL;
        }
        let mut permissions = self.everyone_role;
        let member_role_count = self.member_roles.len();
        proof {
            assert(self.member_roles@.take(0) =~= Seq::<(RoleId, u64)>::empty());
            let a = self.everyone_role;
            assert(a | 0u64 == a) by (bit_vector);
        }
        let mut idx: usize = 0;
        while idx < member_role_count
            invariant
                member_role_count == self.member_roles@.len(),
                idx <= member_role_count,
                permissions == self.everyone_role | spec_roles_union(
                    self.member_roles@.take(idx as int),
                ),
                forall|i: int|
                    0 <= i < idx ==> !spec_contains(
                        #[trigger] self.member_roles@[i].1,
                        ADMINISTRATOR,
                    ),
            decreases member_role_count - idx,
        {
            let role_permissions = self.member_roles[idx].1;
            if role_permissions & ADMINISTRATOR == ADMINISTRATOR {
                return PERMISSIONS_ALL;
            }
            permissions = permissions | role_permissions;
            proof {
                assert(self.member_roles@.take(idx + 1).drop_last() =~= self.member_roles@.take(
                    idx as int,
                ));
                let a = self.everyone_role;
                let b = spec_roles_union(self.member_roles@.take(idx as int));
                let c = role_permissions;
                assert((a | b) | c == a | (b | c)) by (bit_vector);
            }
            idx = idx + 1;
        }
        proof {
            assert(self.member_roles@.take(member_role_count as int) =~= self.member_roles@);
            assert(!spec_any_admin(self.member_roles@));
            assert(permissions == self.everyone_role | spec_roles_union(self.member_roles@));
            assert(self.spec_owner_id() != Some(self.spec_user_id()));
            assert(!spec_contains(self.everyone_role, ADMINISTRATOR));
        }
        permissions
    }

    /// Calculates the channel-level permissions of the member, taking the
    /// guild-level permissions, the channel's permission overwrites, and the
    /// channel type's exclusions into account.
    pub fn in_channel(
        self,
        channel_type: ChannelType,
        channel_overwrites: &[PermissionOverwrite],
    ) -> (r: u64)
        ensures
            r == spec_in_channel(
                self.spec_guild_id(),
                self.spec_user_id(),
                self.spec_everyone_role(),
                self.spec_member_roles(),
                self.spec_owner_id(),
                channel_type,
                channel_overwrites@,
            ),
    {
        let mut permissions = self.root();
        if permissions & ADMINISTRATOR == ADMINISTRATOR {
            return PERMISSIONS_ALL;
        }
        permissions = permissions & !PERMISSIONS_ROOT_ONLY;
        permissions = process_permission_overwrites(
            permissions,
            channel_overwrites,
            self.member_roles,
            self.guild_id,
            self.user_id,
        );
        if permissions == 0 {
            return permissions;
        }
        permissions = permissions & !PERMISSIONS_ROOT_ONLY;
        let ghost masked = permissions;
        if matches!(channel_type, ChannelType::GuildStageVoice) {
            permissions = permissions & !PERMISSIONS_STAGE_OMIT;
        } else if matches!(channel_type, ChannelType::GuildText) {
            permissions = permissions & !PERMISSIONS_TEXT_OMIT;
        } else if matches!(channel_type, ChannelType::GuildVoice) {
            permissions = permissions & !PERMISSIONS_VOICE_OMIT;
        } else {
            proof {
                let x = masked;
                assert(x & !0u64 == x) by (bit_vector);
            }
        }
        permissions
    }
}

} // verus!
