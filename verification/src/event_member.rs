//! Handlers for members and the users they reference.
//!
//! A user record is kept alive as long as at least one member references it:
//! the per-user set of referencing guild ids grows when members are cached
//! and shrinks when they are removed, and the record is dropped only once no
//! guild references it.

use vstd::prelude::*;
use crate::cache::CacheView;
use crate::cache::InMemoryCache;
use crate::cache::UserEntry;
use crate::cache::cache_inv;
use crate::config::RESOURCE_MEMBER;
use crate::gateway::Member;
use crate::gateway::MemberUpdate;
use crate::guild::CachedMember;
use crate::guild::CachedMemberView;
use crate::id::GuildId;
use crate::id::UserId;
use crate::index::index_with;
use crate::index::index_without;
use crate::index::lemma_linked_pair_insert;
use crate::index::lemma_linked_pair_remove;
use crate::index::index_add;
use crate::index::index_del;
use crate::store::IdSet;
use crate::user::User;
use crate::util::clone_opt_string;
use crate::util::clone_vec_copy;
use crate::util::id_seq_view;

verus! {

/// The guild set of a user after a sighting, optionally within a guild.
pub open spec fn user_guilds_after(s: CacheView, u: u64, guild: Option<u64>) -> Set<u64> {
    let base = if s.users.dom().contains(u) {
        s.users[u].1
    } else {
        Set::empty()
    };
    match guild {
        Some(g) => base.insert(g),
        None => base,
    }
}

/// The cache after a user was sighted, optionally within a guild: the record
/// is stored or refreshed and the guild is added to its reference set.
pub open spec fn spec_cache_user(s: CacheView, user: User, guild: Option<u64>) -> CacheView {
    CacheView {
        users: s.users.insert(user.id@, (user@, user_guilds_after(s, user.id@, guild))),
        ..s
    }
}

/// The cache after a member was stored under a guild. The stored record
/// carries the guild's id, and the user record gains the guild reference. A
/// member whose user is not cached is dropped, so that no member ever points
/// at a missing user record.
pub open spec fn spec_cache_member(s: CacheView, g: u64, member: CachedMember) -> CacheView {
    let u = member.user_id@;
    if !s.wants(RESOURCE_MEMBER) || !s.users.dom().contains(u) {
        s
    } else {
        CacheView {
            members: s.members.insert((g, u), CachedMemberView { guild_id: g, ..member@ }),
            guild_members: index_with(s.guild_members, g, u),
            users: s.users.insert(u, (s.users[u].0, s.users[u].1.insert(g))),
            ..s
        }
    }
}

/// The cached record that a member payload produces.
pub open spec fn member_of_payload(m: Member) -> CachedMember {
    CachedMember {
        deaf: Some(m.deaf),
        guild_id: m.guild_id,
        joined_at: m.joined_at,
        mute: Some(m.mute),
        nick: m.nick,
        pending: m.pending,
        premium_since: m.premium_since,
        roles: m.roles,
        user_id: m.user.id,
    }
}

/// The cache after a member-add: the member's user is sighted under the
/// guild and the member record is stored.
pub open spec fn spec_member_add(s: CacheView, m: Member) -> CacheView {
    if !s.wants(RESOURCE_MEMBER) {
        s
    } else {
        spec_cache_member(
            spec_cache_user(s, m.user, Some(m.guild_id@)),
            m.guild_id@,
            member_of_payload(m),
        )
    }
}

/// The cache after a member chunk: the member-adds applied in order.
pub open spec fn spec_member_chunk(s: CacheView, members: Seq<Member>) -> CacheView
    decreases members.len(),
{
    if members.len() == 0 {
        s
    } else {
        spec_member_chunk(spec_member_add(s, members[0]), members.drop_first())
    }
}

/// The cache after a member was removed: the member and its index entry go,
/// the guild loses its reference to the user, and a user no guild references
/// any longer is dropped.
pub open spec fn spec_member_remove(s: CacheView, g: u64, u: u64) -> CacheView {
    if !s.wants(RESOURCE_MEMBER) {
        s
    } else {
        CacheView {
            members: s.members.remove((g, u)),
            guild_members: index_without(s.guild_members, g, u),
            users: if s.users.dom().contains(u) {
                if s.users[u].1.remove(g).is_empty() {
                    s.users.remove(u)
                } else {
                    s.users.insert(u, (s.users[u].0, s.users[u].1.remove(g)))
                }
            } else {
                s.users
            },
            ..s
        }
    }
}

/// A member record with the present fields of a partial update merged in.
pub open spec fn member_merged(old_m: CachedMemberView, up: MemberUpdate) -> CachedMemberView {
    CachedMemberView {
        deaf: match up.deaf {
            Some(d) => Some(d),
            None => old_m.deaf,
        },
        joined_at: match up.joined_at {
            Some(j) => Some(j@),
            None => old_m.joined_at,
        },
        mute: match up.mute {
            Some(x) => Some(x),
            None => old_m.mute,
        },
        nick: match up.nick {
            Some(n) => Some(n@),
            None => old_m.nick,
        },
        pending: match up.pending {
            Some(p) => p,
            None => old_m.pending,
        },
        premium_since: match up.premium_since {
            Some(p) => Some(p@),
            None => old_m.premium_since,
        },
        roles: match up.roles {
            Some(rs) => id_seq_view(rs@),
            None => old_m.roles,
        },
        ..old_m
    }
}

/// The cache after a partial member update: present fields merge into the
/// stored record, absent fields leave it untouched; an update for a member
/// that is not cached is dropped, never fabricated.
pub open spec fn spec_member_update(s: CacheView, up: MemberUpdate) -> CacheView {
    let key = (up.guild_id@, up.user_id@);
    if !s.wants(RESOURCE_MEMBER) || !s.members.dom().contains(key) {
        s
    } else {
        CacheView { members: s.members.insert(key, member_merged(s.members[key], up)), ..s }
    }
}

/// Sighting a user preserves the cache invariant.
pub proof fn lemma_inv_cache_user(s: CacheView, user: User, guild: Option<u64>)
    requires
        cache_inv(s),
    ensures
        cache_inv(spec_cache_user(s, user, guild)),
{
    let t = spec_cache_user(s, user, guild);
    assert forall|g2: u64, u2: u64| #[trigger] t.members.dom().contains((g2, u2)) implies
        t.users.dom().contains(u2) && t.users[u2].1.contains(g2) by {
        assert(s.members.dom().contains((g2, u2)));
        assert(s.users.dom().contains(u2) && s.users[u2].1.contains(g2));
    }
    assert forall|u2: u64| #[trigger] t.users.dom().contains(u2) implies t.users[u2].0.id
        == u2 by {
        if u2 != user.id@ {
            assert(s.users.dom().contains(u2));
        }
    }
}

/// Storing a member preserves the cache invariant.
pub proof fn lemma_inv_cache_member(s: CacheView, g: u64, member: CachedMember)
    requires
        cache_inv(s),
    ensures
        cache_inv(spec_cache_member(s, g, member)),
{
    let u = member.user_id@;
    if s.wants(RESOURCE_MEMBER) && s.users.dom().contains(u) {
        let mv = CachedMemberView { guild_id: g, ..member@ };
        lemma_linked_pair_insert(s.members, s.guild_members, g, u, mv);
        let t = spec_cache_member(s, g, member);
        assert forall|g2: u64, u2: u64| #[trigger] t.members.dom().contains((g2, u2)) implies
            t.users.dom().contains(u2) && t.users[u2].1.contains(g2) by {
            if g2 == g && u2 == u {
                assert(t.users[u].1 == s.users[u].1.insert(g));
            } else {
                assert(s.members.dom().contains((g2, u2)));
                assert(s.users.dom().contains(u2) && s.users[u2].1.contains(g2));
            }
        }
        assert forall|g2: u64, u2: u64| #[trigger] t.members.dom().contains((g2, u2)) implies
            t.members[(g2, u2)].guild_id == g2 && t.members[(g2, u2)].user_id == u2 by {
            if g2 != g || u2 != u {
                assert(s.members.dom().contains((g2, u2)));
            }
        }
        assert forall|u2: u64| #[trigger] t.users.dom().contains(u2) implies t.users[u2].0.id
            == u2 by {
            assert(s.users.dom().contains(u2));
        }
    }
}

/// Removing a member preserves the cache invariant: a user still referenced
/// by another guild is retained.
pub proof fn lemma_inv_member_remove(s: CacheView, g: u64, u: u64)
    requires
        cache_inv(s),
    ensures
        cache_inv(spec_member_remove(s, g, u)),
{
    if s.wants(RESOURCE_MEMBER) {
        lemma_linked_pair_remove(s.members, s.guild_members, g, u);
        let t = spec_member_remove(s, g, u);
        assert forall|g2: u64, u2: u64| #[trigger] t.members.dom().contains((g2, u2)) implies
            t.users.dom().contains(u2) && t.users[u2].1.contains(g2) by {
            assert(s.members.dom().contains((g2, u2)));
            assert(s.users.dom().contains(u2) && s.users[u2].1.contains(g2));
            if u2 == u {
                assert(!(g2 == g && u2 == u));
                assert(s.users[u].1.remove(g).contains(g2));
                assert(!s.users[u].1.remove(g).is_empty());
            }
        }
        assert forall|u2: u64| #[trigger] t.users.dom().contains(u2) implies t.users[u2].0.id
            == u2 by {
            assert(s.users.dom().contains(u2));
        }
    }
}

/// Merging a partial member update preserves the cache invariant.
pub proof fn lemma_inv_member_update(s: CacheView, up: MemberUpdate)
    requires
        cache_inv(s),
    ensures
        cache_inv(spec_member_update(s, up)),
{
    let key = (up.guild_id@, up.user_id@);
    if s.wants(RESOURCE_MEMBER) && s.members.dom().contains(key) {
        let t = spec_member_update(s, up);
        assert forall|g2: u64, u2: u64| #[trigger] t.members.dom().contains((g2, u2)) implies
            t.members[(g2, u2)].guild_id == g2 && t.members[(g2, u2)].user_id == u2 by {
            assert(s.members.dom().contains((g2, u2)));
        }
        assert forall|g2: u64, u2: u64| #[trigger] t.members.dom().contains((g2, u2)) implies
            t.guild_members.dom().contains(g2) && t.guild_members[g2].contains(u2) by {
            assert(s.members.dom().contains((g2, u2)));
        }
        assert forall|g2: u64, u2: u64|
            t.guild_members.dom().contains(g2) && #[trigger] t.guild_members[g2].contains(
            u2,
        ) implies t.members.dom().contains((g2, u2)) by {
            assert(s.guild_members[g2].contains(u2));
        }
        assert forall|g2: u64, u2: u64| #[trigger] t.members.dom().contains((g2, u2)) implies
            t.users.dom().contains(u2) && t.users[u2].1.contains(g2) by {
            assert(s.members.dom().contains((g2, u2)));
        }
    }
}

impl InMemoryCache {
    /// Caches a sighting of a user, optionally within a guild: the record is
    /// stored or refreshed, and the guild is added to the user's reference
    /// set.
    pub fn cache_user(&mut self, user: &User, guild_id: Option<GuildId>)
        requires
            old(self).inv(),
        ensures
            final(self).inv(),
            final(self)@ == spec_cache_user(
                old(self)@,
                *user,
                match guild_id {
                    Some(g) => Some(g@),
                    None => None,
                },
            ),
    {
        proof {
            lemma_inv_cache_user(
                old(self)@,
                *user,
                match guild_id {
                    Some(g) => Some(g@),
                    None => None,
                },
            );
        }
        let uid = user.id.get();
        let mut guilds = match self.users.remove(uid) {
            Some(entry) => entry.guilds,
            None => IdSet::new(),
        };
        match guild_id {
            Some(g) => guilds.insert(g.get()),
            None => {},
        }
        self.users.insert(uid, UserEntry { user: user.clone(), guilds });
        proof {
            assert(self@ =~= spec_cache_user(
                old(self)@,
                *user,
                match guild_id {
                    Some(g) => Some(g@),
                    None => None,
                },
            ));
        }
    }

    /// Caches a member of a guild. The stored record carries the guild's id,
    /// and the user record gains the guild reference. A member whose user is
    /// not cached, like an event for a disabled category, is dropped.
    pub fn cache_member(&mut self, guild_id: GuildId, member: CachedMember)
        requires
            old(self).inv(),
        ensures
            final(self).inv(),
            final(self)@ == spec_cache_member(old(self)@, guild_id@, member),
    {
        proof {
            lemma_inv_cache_member(old(self)@, guild_id@, member);
        }
        if !self.wants(RESOURCE_MEMBER) {
            return ;
        }
        let uid = member.user_id.get();
        let mut entry = match self.users.remove(uid) {
            Some(e) => e,
            None => {
                proof {
                    assert(self@ =~= old(self)@);
                }
                return ;
            },
        };
        entry.guilds.insert(guild_id.get());
        self.users.insert(uid, entry);
        let mut stored = member;
        stored.guild_id = guild_id;
        proof {
            assert(stored@ =~= CachedMemberView { guild_id: guild_id@, ..member@ });
        }
        self.members.insert((guild_id.get(), uid), stored);
        index_add(&mut self.guild_members, guild_id.get(), uid);
        proof {
            assert(self@ =~= spec_cache_member(old(self)@, guild_id@, member));
        }
    }

    /// Caches a member-add payload: the user is sighted under the guild and
    /// the member is stored. With the member category disabled this is a
    /// no-op.
    pub fn member_add(&mut self, m: &Member)
        requires
            old(self).inv(),
        ensures
            final(self).inv(),
            final(self)@ == spec_member_add(old(self)@, *m),
    {
        if !self.wants(RESOURCE_MEMBER) {
            return ;
        }
        self.cache_user(&m.user, Some(m.guild_id));
        let cached = CachedMember {
            deaf: Some(m.deaf),
            guild_id: m.guild_id,
            joined_at: clone_opt_string(&m.joined_at),
            mute: Some(m.mute),
            nick: clone_opt_string(&m.nick),
            pending: m.pending,
            premium_since: clone_opt_string(&m.premium_since),
            roles: clone_vec_copy(&m.roles),
            user_id: m.user.id,
        };
        proof {
            assert(cached@ =~= member_of_payload(*m)@);
        }
        self.cache_member(m.guild_id, cached);
        proof {
            assert(spec_cache_member(
                spec_cache_user(old(self)@, m.user, Some(m.guild_id@)),
                m.guild_id@,
                cached,
            ) =~= spec_cache_member(
                spec_cache_user(old(self)@, m.user, Some(m.guild_id@)),
                m.guild_id@,
                member_of_payload(*m),
            ));
        }
    }

    /// Caches a chunk of members, in order. With the member category disabled
    /// this is a no-op.
    pub fn member_chunk(&mut self, members: &Vec<Member>)
        requires
            old(self).inv(),
        ensures
            final(self).inv(),
            final(self)@ == spec_member_chunk(old(self)@, members@),
    {
        proof {
            assert(members@.skip(0) =~= members@);
        }
        let n = members.len();
        for i in 0..n
            invariant
                self.inv(),
                n == members@.len(),
                spec_member_chunk(self@, members@.skip(i as int)) == spec_member_chunk(
                    old(self)@,
                    members@,
                ),
        {
            let ghost pre = self@;
            self.member_add(&members[i]);
            proof {
                assert(members@.skip(i as int).drop_first() =~= members@.skip(i + 1));
                assert(members@.skip(i as int)[0] == members@[i as int]);
            }
        }
        proof {
            assert(members@.skip(n as int) =~= Seq::<Member>::empty());
        }
    }

    /// Removes a member of a guild, releasing the guild's reference to the
    /// user; a user no guild references any longer is dropped. With the
    /// member category disabled this is a no-op.
    pub fn member_remove(&mut self, guild_id: GuildId, user_id: UserId)
        requires
            old(self).inv(),
        ensures
            final(self).inv(),
            final(self)@ == spec_member_remove(old(self)@, guild_id@, user_id@),
    {
        proof {
            lemma_inv_member_remove(old(self)@, guild_id@, user_id@);
        }
        if !self.wants(RESOURCE_MEMBER) {
            return ;
        }
        let uid = user_id.get();
        self.members.remove((guild_id.get(), uid));
        index_del(&mut self.guild_members, guild_id.get(), uid);
        match self.users.remove(uid) {
            Some(mut entry) => {
                entry.guilds.remove(guild_id.get());
                if !entry.guilds.is_empty() {
                    self.users.insert(uid, entry);
                }
            },
            None => {},
        }
        proof {
            assert(self@ =~= spec_member_remove(old(self)@, guild_id@, user_id@));
        }
    }

    /// Merges a partial member update into the stored record; fields the
    /// update does not carry are left untouched, and an update for a member
    /// that is not cached is dropped, never fabricated.
    pub fn member_update(&mut self, up: &MemberUpdate)
        requires
            old(self).inv(),
        ensures
            final(self).inv(),
            final(self)@ == spec_member_update(old(self)@, *up),
    {
        proof {
            lemma_inv_member_update(old(self)@, *up);
        }
        if !self.wants(RESOURCE_MEMBER) {
            return ;
        }
        let key = (up.guild_id.get(), up.user_id.get());
        match self.members.remove(key) {
            Some(mut member) => {
                match &up.deaf {
                    Some(d) => {
                        member.deaf = Some(*d);
                    },
                    None => {},
                }
                match &up.joined_at {
                    Some(j) => {
                        member.joined_at = Some(j.clone());
                    },
                    None => {},
                }
                match &up.mute {
                    Some(x) => {
                        member.mute = Some(*x);
                    },
                    None => {},
                }
                match &up.nick {
                    Some(nk) => {
                        member.nick = Some(nk.clone());
                    },
                    None => {},
                }
                match &up.pending {
                    Some(p) => {
                        member.pending = *p;
                    },
                    None => {},
                }
                match &up.premium_since {
                    Some(p) => {
                        member.premium_since = Some(p.clone());
                    },
                    None => {},
                }
                match &up.roles {
                    Some(rs) => {
                        member.roles = clone_vec_copy(rs);
                    },
                    None => {},
                }
                let ghost merged = member_merged(old(self)@.members[(up.guild_id@, up.user_id@)], *up);
                proof {
                    assert(member@ =~= merged);
                }
                self.members.insert(key, member);
                proof {
                    assert(self@.members =~= old(self)@.members.insert(
                        (up.guild_id@, up.user_id@),
                        merged,
                    ));
                    assert(self@ =~= spec_member_update(old(self)@, *up));
                }
            },
            None => {
                proof {
                    assert(self@ =~= old(self)@);
                }
            },
        }
    }
}

} // verus!
