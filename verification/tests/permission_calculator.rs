//! Tests of the permission calculator.

use twilight::channel::ChannelType;
use twilight::channel::PermissionOverwrite;
use twilight::channel::PermissionOverwriteType;
use twilight::id::GuildId;
use twilight::id::RoleId;
use twilight::id::UserId;
use twilight::permission::ADMINISTRATOR;
use twilight::permission::ATTACH_FILES;
use twilight::permission::CONNECT;
use twilight::permission::EMBED_LINKS;
use twilight::permission::MANAGE_MESSAGES;
use twilight::permission::MENTION_EVERYONE;
use twilight::permission::PERMISSIONS_ALL;
use twilight::permission::PERMISSIONS_ROOT_ONLY;
use twilight::permission::PermissionCalculator;
use twilight::permission::SEND_MESSAGES;
use twilight::permission::SEND_TTS_MESSAGES;
use twilight::permission::VIEW_CHANNEL;

#[test]
fn test_owner_is_admin() {
    let guild_id = GuildId::new(1).expect("non zero");
    let user_id = UserId::new(2).expect("non zero");
    let everyone_role = SEND_MESSAGES;
    let roles = &[];

    let calculator =
        PermissionCalculator::new(guild_id, user_id, everyone_role, roles).owner_id(user_id);

    assert_eq!(PERMISSIONS_ALL, calculator.root());
}

// Test that a permission overwrite denying the "View Channel" permission
// implicitly denies all other permissions.
#[test]
fn test_view_channel_deny_implicit() {
    let guild_id = GuildId::new(1).expect("non zero");
    let user_id = UserId::new(2).expect("non zero");
    let everyone_role = MENTION_EVERYONE | SEND_MESSAGES;
    let roles = &[(RoleId::new(3).expect("non zero"), 0)];

    {
        // First, test when it's denied for an overwrite on a role the user
        // has.
        let overwrites = &[PermissionOverwrite {
            allow: SEND_TTS_MESSAGES,
            deny: VIEW_CHANNEL,
            kind: PermissionOverwriteType::Role(RoleId::new(3).expect("non zero")),
        }];

        let calculated = PermissionCalculator::new(guild_id, user_id, everyone_role, roles)
            .in_channel(ChannelType::GuildText, overwrites);

        assert_eq!(calculated, 0);
    }

    // And now that it's denied for an overwrite on the member.
    {
        let overwrites = &[PermissionOverwrite {
            allow: SEND_TTS_MESSAGES,
            deny: VIEW_CHANNEL,
            kind: PermissionOverwriteType::Member(UserId::new(2).expect("non zero")),
        }];

        let calculated = PermissionCalculator::new(guild_id, user_id, everyone_role, roles)
            .in_channel(ChannelType::GuildText, overwrites);

        assert_eq!(calculated, 0);
    }
}

#[test]
fn test_remove_text_and_stage_perms_when_voice() {
    let guild_id = GuildId::new(1).expect("non zero");
    let user_id = UserId::new(2).expect("non zero");
    let everyone_role = CONNECT;
    let roles = &[(RoleId::new(3).expect("non zero"), SEND_MESSAGES)];

    let calculated = PermissionCalculator::new(guild_id, user_id, everyone_role, roles)
        .in_channel(ChannelType::GuildVoice, &[]);

    assert_eq!(calculated, CONNECT);
}

#[test]
fn test_remove_audio_perms_when_text() {
    let guild_id = GuildId::new(1).expect("non zero");
    let user_id = UserId::new(2).expect("non zero");
    let everyone_role = CONNECT;
    let roles = &[(RoleId::new(3).expect("non zero"), SEND_MESSAGES)];

    let calculated = PermissionCalculator::new(guild_id, user_id, everyone_role, roles)
        .in_channel(ChannelType::GuildText, &[]);

    // The connect permission isn't included because text channels don't
    // have the permission.
    assert_eq!(calculated, SEND_MESSAGES);
}

// Test that denying the "Send Messages" permission denies all message
// send related permissions.
#[test]
fn test_deny_send_messages_removes_related() {
    let guild_id = GuildId::new(1).expect("non zero");
    let user_id = UserId::new(2).expect("non zero");
    let everyone_role = MANAGE_MESSAGES | EMBED_LINKS | MENTION_EVERYONE;
    let roles = &[(RoleId::new(3).expect("non zero"), 0)];

    // First, test when it's denied for an overwrite on a role the user has.
    let overwrites = &[PermissionOverwrite {
        allow: ATTACH_FILES,
        deny: SEND_MESSAGES,
        kind: PermissionOverwriteType::Role(RoleId::new(3).expect("non zero")),
    }];

    let calculated = PermissionCalculator::new(guild_id, user_id, everyone_role, roles)
        .in_channel(ChannelType::GuildText, overwrites);

    assert_eq!(calculated, MANAGE_MESSAGES);
}

/// Test that a member that has a role with the "administrator" permission
/// has all denying overwrites ignored.
#[test]
fn test_admin() {
    let member_roles = &[(RoleId::new(3).expect("non zero"), ADMINISTRATOR)];
    let calc = PermissionCalculator::new(
        GuildId::new(1).expect("non zero"),
        UserId::new(2).expect("non zero"),
        0,
        member_roles,
    );
    assert!(calc.root() == PERMISSIONS_ALL);

    // Ensure that the denial of "send messages" doesn't actually occur due
    // to the user being an administrator.
    assert!(calc.in_channel(ChannelType::GuildText, &[]) == PERMISSIONS_ALL);
}

/// Test that guild-level permissions are removed in the permissions for a
/// channel of any type.
#[test]
fn test_guild_level_removed_in_channel() {
    let channel_types = &[
        ChannelType::GuildCategory,
        ChannelType::GuildNews,
        ChannelType::GuildStageVoice,
        ChannelType::GuildStore,
        ChannelType::GuildText,
        ChannelType::GuildVoice,
    ];

    // We need to remove the administrator permission or else the calculator
    // will (correctly) return all permissions.
    let everyone = PERMISSIONS_ROOT_ONLY & !ADMINISTRATOR;

    for kind in channel_types {
        let calc = PermissionCalculator::new(
            GuildId::new(1).expect("non zero"),
            UserId::new(2).expect("non zero"),
            everyone,
            &[],
        );
        let calculated = calc.in_channel(*kind, &[]);

        assert!(calculated & PERMISSIONS_ROOT_ONLY == 0);
    }
}
