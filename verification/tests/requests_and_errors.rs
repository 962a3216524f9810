//! Tests of request validation, URL assembly, ratelimit errors, and cache
//! statistics.

use twilight::cache::InMemoryCache;
use twilight::channel::Channel;
use twilight::channel::ChannelType;
use twilight::channel::GuildChannel;
use twilight::gateway::Event;
use twilight::id::ChannelId;
use twilight::id::GuildId;
use twilight::id::CommandId;
use twilight::id::RoleId;
use twilight::ratelimit::RatelimitError;
use twilight::ratelimit::RatelimitErrorType;
use twilight::request::CommandOption;
use twilight::request::CommandPermissions;
use twilight::request::CommandPermissionsType;
use twilight::request::GUILD_COMMAND_LIMIT;
use twilight::request::GUILD_COMMAND_PERMISSION_LIMIT;
use twilight::request::InteractionErrorType;
use twilight::request::command_description;
use twilight::request::command_name;
use twilight::request::guild_command_permissions;
use twilight::request::request_url;
use twilight::request::validate_command_options;
use twilight::request::validate_command_permissions;

#[test]
fn command_name_length_limits() {
    assert!(!command_name(""));
    assert!(!command_name("ab"));
    assert!(command_name("abc"));
    assert!(command_name("a-name-of-thirty-two-characters!"));
    assert!(!command_name("a-name-of-thirty-three-characters"));
}

#[test]
fn command_description_length_limits() {
    assert!(!command_description(""));
    assert!(command_description("d"));
    let hundred = "x".repeat(100);
    assert!(command_description(&hundred));
    let over = "x".repeat(101);
    assert!(!command_description(&over));
}

#[test]
fn permission_count_limits() {
    assert!(!guild_command_permissions(0));
    assert!(guild_command_permissions(1));
    assert!(guild_command_permissions(10));
    assert!(!guild_command_permissions(11));
}

#[test]
fn required_options_must_come_first() {
    let ok = vec![
        CommandOption { name: String::from("first"), required: true },
        CommandOption { name: String::from("second"), required: false },
    ];
    assert!(validate_command_options(&ok).is_ok());

    let bad = vec![
        CommandOption { name: String::from("first"), required: true },
        CommandOption { name: String::from("second"), required: false },
        CommandOption { name: String::from("third"), required: true },
    ];
    let err = validate_command_options(&bad).unwrap_err();
    assert!(matches!(
        err.kind(),
        InteractionErrorType::CommandOptionsRequiredFirst { index: 2 }
    ));
}

#[test]
fn urls_name_the_host_and_route() {
    assert_eq!(
        request_url(false, None, "guilds/1/invites"),
        "https://discord.com/api/v9/guilds/1/invites"
    );
    assert_eq!(
        request_url(true, Some("localhost:3000"), "channels/2"),
        "http://localhost:3000/api/v9/channels/2"
    );
}

#[test]
fn ratelimit_error_parts() {
    let err = RatelimitError::header_missing(String::from("x-ratelimit-limit"));
    assert!(matches!(err.kind(), RatelimitErrorType::HeaderMissing { .. }));
    assert_eq!(
        err.message(),
        "At least one header, \"x-ratelimit-limit\", is missing"
    );
    let (kind, source) = err.into_parts();
    assert!(matches!(kind, RatelimitErrorType::HeaderMissing { .. }));
    assert!(source.is_none());

    let not_utf8 = RatelimitError::header_not_utf8(
        String::from("x-ratelimit-reset"),
        vec![0xFF],
        String::from("invalid utf-8 sequence"),
    );
    assert_eq!(
        not_utf8.into_source(),
        Some(String::from("invalid utf-8 sequence"))
    );
}

#[test]
fn stats_report_cardinalities() {
    let mut cache = InMemoryCache::new();
    let channel = GuildChannel {
        guild_id: Some(GuildId::new(1).expect("non zero")),
        id: ChannelId::new(10).expect("non zero"),
        kind: ChannelType::GuildText,
        last_pin_timestamp: None,
        name: String::from("general"),
        parent_id: None,
        permission_overwrites: Vec::new(),
        position: 0,
    };
    let event = Event::ChannelCreate(Channel::Guild(channel));
    cache.update(&event);
    assert_eq!(cache.stats().channels_guild(), 1);
    // re-applying the identical event leaves the cardinality unchanged
    cache.update(&event);
    assert_eq!(cache.stats().channels_guild(), 1);
    assert_eq!(cache.stats().guilds(), 0);
}

fn command_permissions(id: CommandId, count: usize) -> Vec<(CommandId, CommandPermissions)> {
    let entry = CommandPermissions {
        id: CommandPermissionsType::Role(RoleId::new(4).expect("non zero")),
        permission: true,
    };
    std::iter::repeat((id, entry)).take(count).collect()
}

#[test]
fn test_correct_validation() {
    let permissions = command_permissions(CommandId::new(1).expect("non zero"), 4);

    let result = validate_command_permissions(&permissions);

    assert!(result.is_ok());
}

#[test]
fn test_incorrect_validation() {
    let permissions = command_permissions(
        CommandId::new(2).expect("non zero"),
        GUILD_COMMAND_PERMISSION_LIMIT + 1,
    );

    let result = validate_command_permissions(&permissions);
    assert!(matches!(
        result.unwrap_err().kind(),
        InteractionErrorType::TooManyCommandPermissions
    ));
}

#[test]
fn test_limits() {
    let size = GUILD_COMMAND_LIMIT;

    let mut permissions = Vec::new();
    for id in 1..=size {
        permissions.extend(command_permissions(
            CommandId::new(id as u64).expect("non zero"),
            GUILD_COMMAND_PERMISSION_LIMIT,
        ));
    }

    assert!(validate_command_permissions(&permissions).is_ok());
}

#[test]
fn test_command_count_over_limit() {
    let size = 101;

    let mut permissions = Vec::new();
    for id in 1..=size {
        permissions.extend(command_permissions(
            CommandId::new(id as u64).expect("non zero"),
            3,
        ));
    }

    let result = validate_command_permissions(&permissions);
    assert!(matches!(
        result.unwrap_err().kind(),
        InteractionErrorType::TooManyCommands
    ));
}

#[test]
fn test_no_permissions() {
    assert!(validate_command_permissions(&[]).is_ok());
}
