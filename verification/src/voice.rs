//! Voice states: which user is connected to which voice channel.

use vstd::prelude::*;
use crate::id::ChannelId;
use crate::id::GuildId;
use crate::id::UserId;
use crate::util::clone_opt_string;
use crate::util::opt_string_view;

verus! {

/// The voice connection state of a user within a guild.
pub struct VoiceState {
    /// The channel the user is connected to; absent when the user left voice.
    pub channel_id: Option<ChannelId>,
    pub deaf: bool,
    pub guild_id: Option<GuildId>,
    pub mute: bool,
    pub self_deaf: bool,
    pub self_mute: bool,
    pub self_stream: bool,
    pub session_id: String,
    pub suppress: bool,
    pub token: Option<String>,
    pub user_id: UserId,
}

/// The mathematical value of a [`VoiceState`].
#[verifier::ext_equal]
pub struct VoiceStateView {
    pub channel_id: Option<u64>,
    pub deaf: bool,
    pub guild_id: Option<u64>,
    pub mute: bool,
    pub self_deaf: bool,
    pub self_mute: bool,
    pub self_stream: bool,
    pub session_id: Seq<char>,
    pub suppress: bool,
    pub token: Option<Seq<char>>,
    pub user_id: u64,
}

impl View for VoiceState {
    type V = VoiceStateView;

    open spec fn view(&self) -> VoiceStateView {
        VoiceStateView {
            channel_id: match self.channel_id {
                Some(c) => Some(c@),
                None => None,
            },
            deaf: self.deaf,
            guild_id: match self.guild_id {
                Some(g) => Some(g@),
                None => None,
            },
            mute: self.mute,
            self_deaf: self.self_deaf,
            self_mute: self.self_mute,
            self_stream: self.self_stream,
            session_id: self.session_id@,
            suppress: self.suppress,
            token: opt_string_view(self.token),
            user_id: self.user_id@,
        }
    }
}

impl Clone for VoiceState {
    fn clone(&self) -> (r: Self)
        ensures
            r@ == self@,
    {
        VoiceState {
            channel_id: self.channel_id,
            deaf: self.deaf,
            guild_id: self.guild_id,
            mute: self.mute,
            self_deaf: self.self_deaf,
            self_mute: self.self_mute,
            self_stream: self.self_stream,
            session_id: self.session_id.clone(),
            suppress: self.suppress,
            token: clone_opt_string(&self.token),
            user_id: self.user_id,
        }
    }
}

} // verus!
