//! Handler for voice-state updates, which maintain the voice-state table and
//! its two indexes — by guild and by channel — in one step, so no reader can
//! observe a user in one index but not the other.

use vstd::prelude::*;
use crate::cache::CacheView;
use crate::cache::InMemoryCache;
use crate::cache::cache_inv;
use crate::config::RESOURCE_VOICE_STATE;
use crate::index::index_with;
use crate::index::index_without;
use crate::index::index_add;
use crate::index::index_del;
use crate::index::pair_index_add;
use crate::index::pair_index_del;
use crate::index::pair_index_with;
use crate::index::pair_index_without;
use crate::voice::VoiceState;

verus! {

/// The cache after a voice-state update: any previous state of the user in
/// the guild is unlinked from both indexes, and a state naming a channel is
/// stored and linked under the guild and the channel. A state without a
/// guild is ignored, and one without a channel records that the user left
/// voice.
pub open spec fn spec_voice_state_update(s: CacheView, vs: VoiceState) -> CacheView {
    if !s.wants(RESOURCE_VOICE_STATE) {
        s
    } else {
        match vs.guild_id {
            None => s,
            Some(gid) => {
                let g = gid@;
                let u = vs.user_id@;
                let s1 = if s.voice_states.dom().contains((g, u)) {
                    let c_old = s.voice_states[(g, u)].channel_id->0;
                    CacheView {
                        voice_states: s.voice_states.remove((g, u)),
                        voice_state_guilds: index_without(s.voice_state_guilds, g, u),
                        voice_state_channels: pair_index_without(
                            s.voice_state_channels,
                            c_old,
                            (g, u),
                        ),
                        ..s
                    }
                } else {
                    s
                };
                match vs.channel_id {
                    None => s1,
                    Some(c) => CacheView {
                        voice_states: s1.voice_states.insert((g, u), vs@),
                        voice_state_guilds: index_with(s1.voice_state_guilds, g, u),
                        voice_state_channels: pair_index_with(
                            s1.voice_state_channels,
                            c@,
                            (g, u),
                        ),
                        ..s1
                    },
                }
            },
        }
    }
}

/// A voice-state update preserves the cache invariant: the two indexes stay
/// coherent with the table.
proof fn lemma_inv_voice_state_update(s: CacheView, vs: VoiceState)
    requires
        cache_inv(s),
    ensures
        cache_inv(spec_voice_state_update(s, vs)),
{
    if !s.wants(RESOURCE_VOICE_STATE) || vs.guild_id is None {
        return ;
    }
    let g = vs.guild_id->0@;
    let u = vs.user_id@;
    let s1 = if s.voice_states.dom().contains((g, u)) {
        let c_old = s.voice_states[(g, u)].channel_id->0;
        CacheView {
            voice_states: s.voice_states.remove((g, u)),
            voice_state_guilds: index_without(s.voice_state_guilds, g, u),
            voice_state_channels: pair_index_without(s.voice_state_channels, c_old, (g, u)),
            ..s
        }
    } else {
        s
    };
    assert(cache_inv(s1)) by {
        if s.voice_states.dom().contains((g, u)) {
            let c_old = s.voice_states[(g, u)].channel_id->0;
            assert forall|g2: u64, u2: u64| #[trigger] s1.voice_states.dom().contains(
                (g2, u2),
            ) implies {
                &&& s1.voice_states[(g2, u2)].guild_id == Some(g2)
                &&& s1.voice_states[(g2, u2)].user_id == u2
                &&& s1.voice_states[(g2, u2)].channel_id is Some
                &&& s1.voice_state_guilds.dom().contains(g2)
                &&& s1.voice_state_guilds[g2].contains(u2)
                &&& s1.voice_state_channels.dom().contains(s1.voice_states[(g2, u2)].channel_id->0)
                &&& s1.voice_state_channels[s1.voice_states[(g2, u2)].channel_id->0].contains(
                    (g2, u2),
                )
            } by {
                assert(s.voice_states.dom().contains((g2, u2)));
                assert(!(g2 == g && u2 == u));
                let c2 = s.voice_states[(g2, u2)].channel_id->0;
                assert(s.voice_state_channels.dom().contains(c2)
                    && s.voice_state_channels[c2].contains((g2, u2)));
            }
            assert forall|g2: u64, u2: u64|
                s1.voice_state_guilds.dom().contains(g2)
                    && #[trigger] s1.voice_state_guilds[g2].contains(
                u2,
            ) implies s1.voice_states.dom().contains((g2, u2)) by {
                assert(s.voice_state_guilds[g2].contains(u2));
                assert(!(g2 == g && u2 == u));
            }
            assert forall|c2: u64, p: (u64, u64)|
                s1.voice_state_channels.dom().contains(c2)
                    && #[trigger] s1.voice_state_channels[c2].contains(
                p,
            ) implies s1.voice_states.dom().contains(p) && s1.voice_states[p].channel_id == Some(
                c2,
            ) by {
                assert(s.voice_state_channels[c2].contains(p));
                assert(s.voice_states.dom().contains(p) && s.voice_states[p].channel_id == Some(
                    c2,
                ));
                if p == (g, u) {
                    assert(c2 == c_old);
                    assert(s1.voice_state_channels[c_old] == s.voice_state_channels[
                        c_old].remove((g, u)));
                    assert(false);
                }
            }
        }
    }
    match vs.channel_id {
        None => {},
        Some(c) => {
            let t = spec_voice_state_update(s, vs);
            assert(t.voice_states == s1.voice_states.insert((g, u), vs@));
            assert forall|g2: u64, u2: u64| #[trigger] t.voice_states.dom().contains(
                (g2, u2),
            ) implies {
                &&& t.voice_states[(g2, u2)].guild_id == Some(g2)
                &&& t.voice_states[(g2, u2)].user_id == u2
                &&& t.voice_states[(g2, u2)].channel_id is Some
                &&& t.voice_state_guilds.dom().contains(g2)
                &&& t.voice_state_guilds[g2].contains(u2)
                &&& t.voice_state_channels.dom().contains(t.voice_states[(g2, u2)].channel_id->0)
                &&& t.voice_state_channels[t.voice_states[(g2, u2)].channel_id->0].contains(
                    (g2, u2),
                )
            } by {
                if g2 == g && u2 == u {
                    assert(vs@.guild_id == Some(g) && vs@.user_id == u);
                    assert(t.voice_state_channels[c@].contains((g, u)));
                } else {
                    assert(s1.voice_states.dom().contains((g2, u2)));
                    let c2 = s1.voice_states[(g2, u2)].channel_id->0;
                    assert(s1.voice_state_channels.dom().contains(c2)
                        && s1.voice_state_channels[c2].contains((g2, u2)));
                    if c2 == c@ {
                        assert(t.voice_state_channels[c2].contains((g2, u2)));
                    }
                    if g2 == g {
                        assert(t.voice_state_guilds[g2] == crate::index::set_at(
                            s1.voice_state_guilds,
                            g,
                        ).insert(u));
                        assert(s1.voice_state_guilds[g2].contains(u2));
                    }
                }
            }
            assert forall|g2: u64, u2: u64|
                t.voice_state_guilds.dom().contains(g2)
                    && #[trigger] t.voice_state_guilds[g2].contains(
                u2,
            ) implies t.voice_states.dom().contains((g2, u2)) by {
                if g2 == g {
                    if u2 != u {
                        assert(crate::index::set_at(s1.voice_state_guilds, g).contains(u2));
                        assert(s1.voice_state_guilds.dom().contains(g)
                            && s1.voice_state_guilds[g].contains(u2));
                    }
                } else {
                    assert(s1.voice_state_guilds[g2].contains(u2));
                }
            }
            assert forall|c2: u64, p: (u64, u64)|
                t.voice_state_channels.dom().contains(c2)
                    && #[trigger] t.voice_state_channels[c2].contains(
                p,
            ) implies t.voice_states.dom().contains(p) && t.voice_states[p].channel_id == Some(
                c2,
            ) by {
                if c2 == c@ && p == (g, u) {
                    assert(vs@.channel_id == Some(c@));
                } else if c2 == c@ {
                    assert(crate::index::pair_set_at(s1.voice_state_channels, c@).contains(p));
                    assert(s1.voice_state_channels.dom().contains(c@)
                        && s1.voice_state_channels[c@].contains(p));
                    assert(s1.voice_states.dom().contains(p) && s1.voice_states[p].channel_id
                        == Some(c2));
                } else {
                    assert(s1.voice_state_channels[c2].contains(p));
                    assert(s1.voice_states.dom().contains(p) && s1.voice_states[p].channel_id
                        == Some(c2));
                    assert(p != (g, u));
                }
            }
        },
    }
}

impl InMemoryCache {
    /// Applies a voice-state update: any previous state of the user in the
    /// guild leaves both indexes, and a state naming a channel is stored and
    /// linked under the guild and the channel in the same call. With the
    /// voice-state category disabled this is a no-op.
    pub fn voice_state_update(&mut self, vs: &VoiceState)
        requires
            old(self).inv(),
        ensures
            final(self).inv(),
            final(self)@ == spec_voice_state_update(old(self)@, *vs),
    {
        proof {
            lemma_inv_voice_state_update(old(self)@, *vs);
        }
        if !self.wants(RESOURCE_VOICE_STATE) {
            return ;
        }
        let gid = match vs.guild_id {
            Some(g) => g,
            None => {
                return ;
            },
        };
        let g = gid.get();
        let u = vs.user_id.get();
        match self.voice_states.remove((g, u)) {
            Some(old_state) => {
                index_del(&mut self.voice_state_guilds, g, u);
                match old_state.channel_id {
                    Some(c_old) => {
                        proof {
                            assert(old(self)@.voice_states[(gid@, vs.user_id@)].channel_id == Some(
                                c_old@,
                            ));
                        }
                        pair_index_del(&mut self.voice_state_channels, c_old.get(), (g, u));
                    },
                    None => {
                        proof {
                            assert(old(self)@.voice_states[(gid@, vs.user_id@)].channel_id
                                is Some);
                            assert(false);
                        }
                    },
                }
            },
            None => {},
        }
        let ghost s1 = if old(self)@.voice_states.dom().contains((gid@, vs.user_id@)) {
            let c_old = old(self)@.voice_states[(gid@, vs.user_id@)].channel_id->0;
            CacheView {
                voice_states: old(self)@.voice_states.remove((gid@, vs.user_id@)),
                voice_state_guilds: index_without(old(self)@.voice_state_guilds, gid@, vs.user_id@),
                voice_state_channels: pair_index_without(
                    old(self)@.voice_state_channels,
                    c_old,
                    (gid@, vs.user_id@),
                ),
                ..old(self)@
            }
        } else {
            old(self)@
        };
        proof {
            assert(self@ =~= s1);
        }
        match &vs.channel_id {
            Some(c) => {
                self.voice_states.insert((g, u), vs.clone());
                index_add(&mut self.voice_state_guilds, g, u);
                pair_index_add(&mut self.voice_state_channels, c.get(), (g, u));
                proof {
                    assert(self@ =~= spec_voice_state_update(old(self)@, *vs));
                }
            },
            None => {
                proof {
                    assert(self@ =~= spec_voice_state_update(old(self)@, *vs));
                }
            },
        }
    }
}

} // verus!
