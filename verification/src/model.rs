//! Cached message and presence records, which differ in shape from the wire
//! payloads that create them.

use vstd::prelude::*;
use crate::id::ChannelId;
use crate::id::GuildId;
use crate::id::MessageId;
use crate::id::UserId;
use crate::util::clone_opt_string;
use crate::util::opt_string_view;

verus! {

/// One reaction tally on a message.
pub struct Reaction {
    pub count: u64,
    /// The emoji, either its unicode text or the name of a custom emoji.
    pub emoji: String,
    pub me: bool,
}

/// The mathematical value of a [`Reaction`].
#[verifier::ext_equal]
pub struct ReactionView {
    pub count: u64,
    pub emoji: Seq<char>,
    pub me: bool,
}

impl View for Reaction {
    type V = ReactionView;

    open spec fn view(&self) -> ReactionView {
        ReactionView { count: self.count, emoji: self.emoji@, me: self.me }
    }
}

impl Clone for Reaction {
    fn clone(&self) -> (r: Self)
        ensures
            r@ == self@,
    {
        Reaction { count: self.count, emoji: self.emoji.clone(), me: self.me }
    }
}

/// The views of a sequence of reactions.
pub open spec fn reactions_view(s: Seq<Reaction>) -> Seq<ReactionView> {
    s.map_values(|r: Reaction| r@)
}

/// A message in the per-channel history window.
pub struct CachedMessage {
    pub author: UserId,
    pub channel_id: ChannelId,
    pub content: String,
    pub guild_id: Option<GuildId>,
    pub id: MessageId,
    pub pinned: bool,
    pub reactions: Vec<Reaction>,
    pub timestamp: Option<String>,
}

/// The mathematical value of a [`CachedMessage`].
#[verifier::ext_equal]
pub struct CachedMessageView {
    pub author: u64,
    pub channel_id: u64,
    pub content: Seq<char>,
    pub guild_id: Option<u64>,
    pub id: u64,
    pub pinned: bool,
    pub reactions: Seq<ReactionView>,
    pub timestamp: Option<Seq<char>>,
}

impl View for CachedMessage {
    type V = CachedMessageView;

    open spec fn view(&self) -> CachedMessageView {
        CachedMessageView {
            author: self.author@,
            channel_id: self.channel_id@,
            content: self.content@,
            guild_id: match self.guild_id {
                Some(g) => Some(g@),
                None => None,
            },
            id: self.id@,
            pinned: self.pinned,
            reactions: reactions_view(self.reactions@),
            timestamp: opt_string_view(self.timestamp),
        }
    }
}

impl Clone for CachedMessage {
    fn clone(&self) -> (r: Self)
        ensures
            r@ == self@,
    {
        let mut reactions: Vec<Reaction> = Vec::new();
        let n = self.reactions.len();
        for i in 0..n
            invariant
                n == self.reactions@.len(),
                reactions@.len() == i,
                forall|j: int| 0 <= j < i ==> reactions@[j]@ == self.reactions@[j]@,
        {
            reactions.push(self.reactions[i].clone());
        }
        proof {
            assert(reactions_view(reactions@) =~= reactions_view(self.reactions@));
        }
        CachedMessage {
            author: self.author,
            channel_id: self.channel_id,
            content: self.content.clone(),
            guild_id: self.guild_id,
            id: self.id,
            pinned: self.pinned,
            reactions,
            timestamp: clone_opt_string(&self.timestamp),
        }
    }
}

/// The presence status of a user.
#[derive(Clone, Copy, Debug, PartialEq, Eq, Structural)]
pub enum Status {
    DoNotDisturb,
    Idle,
    Invisible,
    Offline,
    Online,
}

/// The presence of a user within a guild, as the cache stores it.
#[derive(Clone, Copy, Debug, PartialEq, Eq, Structural)]
pub struct CachedPresence {
    pub guild_id: GuildId,
    pub status: Status,
    pub user_id: UserId,
}

impl View for CachedPresence {
    type V = CachedPresence;

    open spec fn view(&self) -> CachedPresence {
        *self
    }
}

} // verus!
