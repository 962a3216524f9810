//! Type-safe IDs for each resource, so that the IDs of resources like
//! channels and guilds cannot be mixed up.
//!
//! Each ID wraps a non-zero 64-bit snowflake. The zero value is reserved:
//! the `new` constructor of every ID type returns `None` for it. The view of
//! an ID is its primitive value.

use vstd::prelude::*;

verus! {

/// Unique ID of an application.
#[derive(Clone, Copy, Debug, PartialEq, Eq, Structural, Hash, PartialOrd, Ord)]
pub struct ApplicationId {
    value: u64,
}

impl View for ApplicationId {
    type V = u64;

    closed spec fn view(&self) -> u64 {
        self.value
    }
}

impl ApplicationId {
    /// Creates the ID if the given value is not zero.
    pub fn new(n: u64) -> (r: Option<Self>)
        ensures
            r is Some <==> n != 0,
            r matches Some(id) ==> id@ == n,
    {
        if n == 0 {
            None
        } else {
            Some(ApplicationId { value: n })
        }
    }

    /// Returns the inner primitive value.
    pub fn get(self) -> (r: u64)
        ensures
            r == self@,
    {
        self.value
    }

    #[allow(dead_code)]
    pub(crate) fn from_raw(n: u64) -> (r: Self)
        ensures
            r@ == n,
    {
        ApplicationId { value: n }
    }
}

/// Unique ID of an attachment.
#[derive(Clone, Copy, Debug, PartialEq, Eq, Structural, Hash, PartialOrd, Ord)]
pub struct AttachmentId {
    value: u64,
}

impl View for AttachmentId {
    type V = u64;

    closed spec fn view(&self) -> u64 {
        self.value
    }
}

impl AttachmentId {
    /// Creates the ID if the given value is not zero.
    pub fn new(n: u64) -> (r: Option<Self>)
        ensures
            r is Some <==> n != 0,
            r matches Some(id) ==> id@ == n,
    {
        if n == 0 {
            None
        } else {
            Some(AttachmentId { value: n })
        }
    }

    /// Returns the inner primitive value.
    pub fn get(self) -> (r: u64)
        ensures
            r == self@,
    {
        self.value
    }

    #[allow(dead_code)]
    pub(crate) fn from_raw(n: u64) -> (r: Self)
        ensures
            r@ == n,
    {
        AttachmentId { value: n }
    }
}

/// Unique ID of an audit log entry.
#[derive(Clone, Copy, Debug, PartialEq, Eq, Structural, Hash, PartialOrd, Ord)]
pub struct AuditLogEntryId {
    value: u64,
}

impl View for AuditLogEntryId {
    type V = u64;

    closed spec fn view(&self) -> u64 {
        self.value
    }
}

impl AuditLogEntryId {
    /// Creates the ID if the given value is not zero.
    pub fn new(n: u64) -> (r: Option<Self>)
        ensures
            r is Some <==> n != 0,
            r matches Some(id) ==> id@ == n,
    {
        if n == 0 {
            None
        } else {
            Some(AuditLogEntryId { value: n })
        }
    }

    /// Returns the inner primitive value.
    pub fn get(self) -> (r: u64)
        ensures
            r == self@,
    {
        self.value
    }

    #[allow(dead_code)]
    pub(crate) fn from_raw(n: u64) -> (r: Self)
        ensures
            r@ == n,
    {
        AuditLogEntryId { value: n }
    }
}

/// Unique ID of a channel.
#[derive(Clone, Copy, Debug, PartialEq, Eq, Structural, Hash, PartialOrd, Ord)]
pub struct ChannelId {
    value: u64,
}

impl View for ChannelId {
    type V = u64;

    closed spec fn view(&self) -> u64 {
        self.value
    }
}

impl ChannelId {
    /// Creates the ID if the given value is not zero.
    pub fn new(n: u64) -> (r: Option<Self>)
        ensures
            r is Some <==> n != 0,
            r matches Some(id) ==> id@ == n,
    {
        if n == 0 {
            None
        } else {
            Some(ChannelId { value: n })
        }
    }

    /// Returns the inner primitive value.
    pub fn get(self) -> (r: u64)
        ensures
            r == self@,
    {
        self.value
    }

    #[allow(dead_code)]
    pub(crate) fn from_raw(n: u64) -> (r: Self)
        ensures
            r@ == n,
    {
        ChannelId { value: n }
    }
}

/// Unique ID of a command used in slash commands.
#[derive(Clone, Copy, Debug, PartialEq, Eq, Structural, Hash, PartialOrd, Ord)]
pub struct CommandId {
    value: u64,
}

impl View for CommandId {
    type V = u64;

    closed spec fn view(&self) -> u64 {
        self.value
    }
}

impl CommandId {
    /// Creates the ID if the given value is not zero.
    pub fn new(n: u64) -> (r: Option<Self>)
        ensures
            r is Some <==> n != 0,
            r matches Some(id) ==> id@ == n,
    {
        if n == 0 {
            None
        } else {
            Some(CommandId { value: n })
        }
    }

    /// Returns the inner primitive value.
    pub fn get(self) -> (r: u64)
        ensures
            r == self@,
    {
        self.value
    }

    #[allow(dead_code)]
    pub(crate) fn from_raw(n: u64) -> (r: Self)
        ensures
            r@ == n,
    {
        CommandId { value: n }
    }
}

/// Unique ID of an emoji.
#[derive(Clone, Copy, Debug, PartialEq, Eq, Structural, Hash, PartialOrd, Ord)]
pub struct EmojiId {
    value: u64,
}

impl View for EmojiId {
    type V = u64;

    closed spec fn view(&self) -> u64 {
        self.value
    }
}

impl EmojiId {
    /// Creates the ID if the given value is not zero.
    pub fn new(n: u64) -> (r: Option<Self>)
        ensures
            r is Some <==> n != 0,
            r matches Some(id) ==> id@ == n,
    {
        if n == 0 {
            None
        } else {
            Some(EmojiId { value: n })
        }
    }

    /// Returns the inner primitive value.
    pub fn get(self) -> (r: u64)
        ensures
            r == self@,
    {
        self.value
    }

    #[allow(dead_code)]
    pub(crate) fn from_raw(n: u64) -> (r: Self)
        ensures
            r@ == n,
    {
        EmojiId { value: n }
    }
}

/// Unique ID of a resource of no particular kind.
#[derive(Clone, Copy, Debug, PartialEq, Eq, Structural, Hash, PartialOrd, Ord)]
pub struct GenericId {
    value: u64,
}

impl View for GenericId {
    type V = u64;

    closed spec fn view(&self) -> u64 {
        self.value
    }
}

impl GenericId {
    /// Creates the ID if the given value is not zero.
    pub fn new(n: u64) -> (r: Option<Self>)
        ensures
            r is Some <==> n != 0,
            r matches Some(id) ==> id@ == n,
    {
        if n == 0 {
            None
        } else {
            Some(GenericId { value: n })
        }
    }

    /// Returns the inner primitive value.
    pub fn get(self) -> (r: u64)
        ensures
            r == self@,
    {
        self.value
    }

    #[allow(dead_code)]
    pub(crate) fn from_raw(n: u64) -> (r: Self)
        ensures
            r@ == n,
    {
        GenericId { value: n }
    }
}

/// Unique ID of a guild.
#[derive(Clone, Copy, Debug, PartialEq, Eq, Structural, Hash, PartialOrd, Ord)]
pub struct GuildId {
    value: u64,
}

impl View for GuildId {
    type V = u64;

    closed spec fn view(&self) -> u64 {
        self.value
    }
}

impl GuildId {
    /// Creates the ID if the given value is not zero.
    pub fn new(n: u64) -> (r: Option<Self>)
        ensures
            r is Some <==> n != 0,
            r matches Some(id) ==> id@ == n,
    {
        if n == 0 {
            None
        } else {
            Some(GuildId { value: n })
        }
    }

    /// Returns the inner primitive value.
    pub fn get(self) -> (r: u64)
        ensures
            r == self@,
    {
        self.value
    }

    #[allow(dead_code)]
    pub(crate) fn from_raw(n: u64) -> (r: Self)
        ensures
            r@ == n,
    {
        GuildId { value: n }
    }
}

/// Unique ID of an integration.
#[derive(Clone, Copy, Debug, PartialEq, Eq, Structural, Hash, PartialOrd, Ord)]
pub struct IntegrationId {
    value: u64,
}

impl View for IntegrationId {
    type V = u64;

    closed spec fn view(&self) -> u64 {
        self.value
    }
}

impl IntegrationId {
    /// Creates the ID if the given value is not zero.
    pub fn new(n: u64) -> (r: Option<Self>)
        ensures
            r is Some <==> n != 0,
            r matches Some(id) ==> id@ == n,
    {
        if n == 0 {
            None
        } else {
            Some(IntegrationId { value: n })
        }
    }

    /// Returns the inner primitive value.
    pub fn get(self) -> (r: u64)
        ensures
            r == self@,
    {
        self.value
    }

    #[allow(dead_code)]
    pub(crate) fn from_raw(n: u64) -> (r: Self)
        ensures
            r@ == n,
    {
        IntegrationId { value: n }
    }
}

/// Unique ID of an interaction payload.
#[derive(Clone, Copy, Debug, PartialEq, Eq, Structural, Hash, PartialOrd, Ord)]
pub struct InteractionId {
    value: u64,
}

impl View for InteractionId {
    type V = u64;

    closed spec fn view(&self) -> u64 {
        self.value
    }
}

impl InteractionId {
    /// Creates the ID if the given value is not zero.
    pub fn new(n: u64) -> (r: Option<Self>)
        ensures
            r is Some <==> n != 0,
            r matches Some(id) ==> id@ == n,
    {
        if n == 0 {
            None
        } else {
            Some(InteractionId { value: n })
        }
    }

    /// Returns the inner primitive value.
    pub fn get(self) -> (r: u64)
        ensures
            r == self@,
    {
        self.value
    }

    #[allow(dead_code)]
    pub(crate) fn from_raw(n: u64) -> (r: Self)
        ensures
            r@ == n,
    {
        InteractionId { value: n }
    }
}

/// Unique ID of a message.
#[derive(Clone, Copy, Debug, PartialEq, Eq, Structural, Hash, PartialOrd, Ord)]
pub struct MessageId {
    value: u64,
}

impl View for MessageId {
    type V = u64;

    closed spec fn view(&self) -> u64 {
        self.value
    }
}

impl MessageId {
    /// Creates the ID if the given value is not zero.
    pub fn new(n: u64) -> (r: Option<Self>)
        ensures
            r is Some <==> n != 0,
            r matches Some(id) ==> id@ == n,
    {
        if n == 0 {
            None
        } else {
            Some(MessageId { value: n })
        }
    }

    /// Returns the inner primitive value.
    pub fn get(self) -> (r: u64)
        ensures
            r == self@,
    {
        self.value
    }

    #[allow(dead_code)]
    pub(crate) fn from_raw(n: u64) -> (r: Self)
        ensures
            r@ == n,
    {
        MessageId { value: n }
    }
}

/// Unique ID of a role.
#[derive(Clone, Copy, Debug, PartialEq, Eq, Structural, Hash, PartialOrd, Ord)]
pub struct RoleId {
    value: u64,
}

impl View for RoleId {
    type V = u64;

    closed spec fn view(&self) -> u64 {
        self.value
    }
}

impl RoleId {
    /// Creates the ID if the given value is not zero.
    pub fn new(n: u64) -> (r: Option<Self>)
        ensures
            r is Some <==> n != 0,
            r matches Some(id) ==> id@ == n,
    {
        if n == 0 {
            None
        } else {
            Some(RoleId { value: n })
        }
    }

    /// Returns the inner primitive value.
    pub fn get(self) -> (r: u64)
        ensures
            r == self@,
    {
        self.value
    }

    #[allow(dead_code)]
    pub(crate) fn from_raw(n: u64) -> (r: Self)
        ensures
            r@ == n,
    {
        RoleId { value: n }
    }
}

/// Unique ID of a stage instance.
#[derive(Clone, Copy, Debug, PartialEq, Eq, Structural, Hash, PartialOrd, Ord)]
pub struct StageId {
    value: u64,
}

impl View for StageId {
    type V = u64;

    closed spec fn view(&self) -> u64 {
        self.value
    }
}

impl StageId {
    /// Creates the ID if the given value is not zero.
    pub fn new(n: u64) -> (r: Option<Self>)
        ensures
            r is Some <==> n != 0,
            r matches Some(id) ==> id@ == n,
    {
        if n == 0 {
            None
        } else {
            Some(StageId { value: n })
        }
    }

    /// Returns the inner primitive value.
    pub fn get(self) -> (r: u64)
        ensures
            r == self@,
    {
        self.value
    }

    #[allow(dead_code)]
    pub(crate) fn from_raw(n: u64) -> (r: Self)
        ensures
            r@ == n,
    {
        StageId { value: n }
    }
}

/// Unique ID of an user.
#[derive(Clone, Copy, Debug, PartialEq, Eq, Structural, Hash, PartialOrd, Ord)]
pub struct UserId {
    value: u64,
}

impl View for UserId {
    type V = u64;

    closed spec fn view(&self) -> u64 {
        self.value
    }
}

impl UserId {
    /// Creates the ID if the given value is not zero.
    pub fn new(n: u64) -> (r: Option<Self>)
        ensures
            r is Some <==> n != 0,
            r matches Some(id) ==> id@ == n,
    {
        if n == 0 {
            None
        } else {
            Some(UserId { value: n })
        }
    }

    /// Returns the inner primitive value.
    pub fn get(self) -> (r: u64)
        ensures
            r == self@,
    {
        self.value
    }

    #[allow(dead_code)]
    pub(crate) fn from_raw(n: u64) -> (r: Self)
        ensures
            r@ == n,
    {
        UserId { value: n }
    }
}

/// Unique ID of a webhook.
#[derive(Clone, Copy, Debug, PartialEq, Eq, Structural, Hash, PartialOrd, Ord)]
pub struct WebhookId {
    value: u64,
}

impl View for WebhookId {
    type V = u64;

    closed spec fn view(&self) -> u64 {
        self.value
    }
}

impl WebhookId {
    /// Creates the ID if the given value is not zero.
    pub fn new(n: u64) -> (r: Option<Self>)
        ensures
            r is Some <==> n != 0,
            r matches Some(id) ==> id@ == n,
    {
        if n == 0 {
            None
        } else {
            Some(WebhookId { value: n })
        }
    }

    /// Returns the inner primitive value.
    pub fn get(self) -> (r: u64)
        ensures
            r == self@,
    {
        self.value
    }

    #[allow(dead_code)]
    pub(crate) fn from_raw(n: u64) -> (r: Self)
        ensures
            r@ == n,
    {
        WebhookId { value: n }
    }
}

} // verus!
