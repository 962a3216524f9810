//! Handler for interaction events: the invoking member and user, the
//! resolved users with their paired resolved members, and the resolved roles
//! are cached as best-effort sightings, gated like ordinary member and role
//! events.

use vstd::prelude::*;
use crate::cache::CacheView;
use crate::cache::InMemoryCache;
use crate::config::RESOURCE_MEMBER;
use crate::config::RESOURCE_ROLE;
use crate::event_guild::spec_cache_role;
use crate::event_member::spec_cache_member;
use crate::event_member::spec_cache_user;
use crate::gateway::ApplicationCommand;
use crate::gateway::Interaction;
use crate::gateway::InteractionCreate;
use crate::gateway::InteractionMember;
use crate::guild::CachedMember;
use crate::guild::PartialMember;
use crate::guild::Role;
use crate::id::GuildId;
use crate::id::UserId;
use crate::user::User;
use crate::util::clone_opt_string;
use crate::util::clone_vec_copy;

verus! {

/// The cached record that an invoking partial member produces.
pub open spec fn member_of_partial(pm: PartialMember, gid: GuildId, uid: UserId) -> CachedMember {
    CachedMember {
        deaf: Some(pm.deaf),
        guild_id: gid,
        joined_at: pm.joined_at,
        mute: Some(pm.mute),
        nick: pm.nick,
        pending: false,
        premium_since: pm.premium_since,
        roles: pm.roles,
        user_id: uid,
    }
}

/// The cached record that a resolved interaction member produces; resolved
/// members carry no voice flags.
pub open spec fn member_of_interaction(im: InteractionMember, gid: GuildId) -> CachedMember {
    CachedMember {
        deaf: None,
        guild_id: gid,
        joined_at: im.joined_at,
        mute: None,
        nick: im.nick,
        pending: false,
        premium_since: im.premium_since,
        roles: im.roles,
        user_id: im.id,
    }
}

/// The first resolved member with the given user id, if any.
pub open spec fn find_resolved_member(ms: Seq<InteractionMember>, id: u64) -> Option<
    InteractionMember,
>
    decreases ms.len(),
{
    if ms.len() == 0 {
        None
    } else if ms[0].id@ == id {
        Some(ms[0])
    } else {
        find_resolved_member(ms.drop_first(), id)
    }
}

proof fn lemma_find_resolved_some(ms: Seq<InteractionMember>, id: u64, idx: int)
    requires
        0 <= idx < ms.len(),
        ms[idx].id@ == id,
        forall|j: int| 0 <= j < idx ==> (#[trigger] ms[j]).id@ != id,
    ensures
        find_resolved_member(ms, id) == Some(ms[idx]),
    decreases idx,
{
    if idx != 0 {
        assert(ms[0].id@ != id);
        let rest = ms.drop_first();
        assert forall|j: int| 0 <= j < idx - 1 implies (#[trigger] rest[j]).id@ != id by {
            assert(rest[j] == ms[j + 1]);
        }
        assert(rest[idx - 1] == ms[idx]);
        lemma_find_resolved_some(rest, id, idx - 1);
    }
}

proof fn lemma_find_resolved_none(ms: Seq<InteractionMember>, id: u64)
    requires
        forall|j: int| 0 <= j < ms.len() ==> (#[trigger] ms[j]).id@ != id,
    ensures
        find_resolved_member(ms, id) is None,
    decreases ms.len(),
{
    if ms.len() != 0 {
        let rest = ms.drop_first();
        assert forall|j: int| 0 <= j < rest.len() implies (#[trigger] rest[j]).id@ != id by {
            assert(rest[j] == ms[j + 1]);
        }
        lemma_find_resolved_none(rest, id);
    }
}

/// The cache after the invoking member and its user were cached, when the
/// member category is enabled and the command names its guild.
pub open spec fn spec_interaction_member_stage(s: CacheView, cmd: ApplicationCommand) -> CacheView {
    if s.wants(RESOURCE_MEMBER) && cmd.member is Some && cmd.member->0.user is Some
        && cmd.guild_id is Some {
        let pm = cmd.member->0;
        let u = pm.user->0;
        let gid = cmd.guild_id->0;
        spec_cache_member(
            spec_cache_user(s, u, Some(gid@)),
            gid@,
            member_of_partial(pm, gid, u.id),
        )
    } else {
        s
    }
}

/// The cache after the command's bare user, if any, was sighted outside a
/// guild.
pub open spec fn spec_interaction_user_stage(s: CacheView, cmd: ApplicationCommand) -> CacheView {
    match cmd.user {
        Some(u) => spec_cache_user(s, u, None),
        None => s,
    }
}

/// The cache after the resolved users were sighted, each stored as a member
/// when a matching resolved member exists, the member category is enabled,
/// and the command names its guild.
pub open spec fn spec_cache_resolved_users(
    s: CacheView,
    users: Seq<User>,
    members: Seq<InteractionMember>,
    guild_id: Option<GuildId>,
) -> CacheView
    decreases users.len(),
{
    if users.len() == 0 {
        s
    } else {
        let u = users[0];
        let s1 = spec_cache_user(
            s,
            u,
            match guild_id {
                Some(gid) => Some(gid@),
                None => None,
            },
        );
        let s2 = if s.wants(RESOURCE_MEMBER) && guild_id is Some {
            match find_resolved_member(members, u.id@) {
                Some(im) => spec_cache_member(
                    s1,
                    guild_id->0@,
                    member_of_interaction(im, guild_id->0),
                ),
                None => s1,
            }
        } else {
            s1
        };
        spec_cache_resolved_users(s2, users.drop_first(), members, guild_id)
    }
}

/// Sighting resolved users never changes which categories are maintained.
proof fn lemma_resolved_users_frame(
    s: CacheView,
    users: Seq<User>,
    members: Seq<InteractionMember>,
    guild_id: Option<GuildId>,
)
    ensures
        spec_cache_resolved_users(s, users, members, guild_id).resource_types == s.resource_types,
    decreases users.len(),
{
    if users.len() != 0 {
        let u = users[0];
        let s1 = spec_cache_user(
            s,
            u,
            match guild_id {
                Some(gid) => Some(gid@),
                None => None,
            },
        );
        let s2 = if s.wants(RESOURCE_MEMBER) && guild_id is Some {
            match find_resolved_member(members, u.id@) {
                Some(im) => spec_cache_member(
                    s1,
                    guild_id->0@,
                    member_of_interaction(im, guild_id->0),
                ),
                None => s1,
            }
        } else {
            s1
        };
        lemma_resolved_users_frame(s2, users.drop_first(), members, guild_id);
    }
}

/// The cache after the resolved roles were stored under the guild, in order.
pub open spec fn spec_role_chunk(s: CacheView, roles: Seq<Role>, g: u64) -> CacheView
    decreases roles.len(),
{
    if roles.len() == 0 {
        s
    } else {
        spec_role_chunk(spec_cache_role(s, g, roles[0]), roles.drop_first(), g)
    }
}

/// The cache after the command's resolved records were cached.
pub open spec fn spec_interaction_resolved_stage(
    s: CacheView,
    cmd: ApplicationCommand,
) -> CacheView {
    match cmd.data.resolved {
        None => s,
        Some(res) => {
            let s1 = spec_cache_resolved_users(s, res.users@, res.members@, cmd.guild_id);
            if s.wants(RESOURCE_ROLE) && cmd.guild_id is Some {
                spec_role_chunk(s1, res.roles@, cmd.guild_id->0@)
            } else {
                s1
            }
        },
    }
}

/// The cache after an interaction: pings change nothing; an application
/// command caches its invoking member and user, its bare user, its resolved
/// users and members, and its resolved roles, each under the ordinary gates.
pub open spec fn spec_interaction_create(s: CacheView, payload: InteractionCreate) -> CacheView {
    match payload.0 {
        Interaction::Ping(_) => s,
        Interaction::ApplicationCommand(cmd) => spec_interaction_resolved_stage(
            spec_interaction_user_stage(spec_interaction_member_stage(s, *cmd), *cmd),
            *cmd,
        ),
    }
}

impl InMemoryCache {
    fn find_member_payload(ms: &Vec<InteractionMember>, id: u64) -> (r: Option<usize>)
        ensures
            match r {
                Some(idx) => idx < ms@.len() && ms@[idx as int].id@ == id && forall|j: int|
                    0 <= j < idx ==> (#[trigger] ms@[j]).id@ != id,
                None => forall|j: int| 0 <= j < ms@.len() ==> (#[trigger] ms@[j]).id@ != id,
            },
    {
        let n = ms.len();
        for idx in 0..n
            invariant
                n == ms@.len(),
                forall|j: int| 0 <= j < idx ==> (#[trigger] ms@[j]).id@ != id,
        {
            if ms[idx].id.get() == id {
                return Some(idx);
            }
        }
        None
    }

    /// Caches the records carried by an interaction: the invoking member and
    /// user (member-gated, and dropped when the command names no guild), the
    /// bare user, the resolved users with their paired resolved members, and
    /// the resolved roles (role-gated).
    pub fn interaction_create(&mut self, payload: &InteractionCreate)
        requires
            old(self).inv(),
        ensures
            final(self).inv(),
            final(self)@ == spec_interaction_create(old(self)@, *payload),
    {
        let cmd = match &payload.0 {
            Interaction::ApplicationCommand(c) => c,
            Interaction::Ping(_) => {
                return ;
            },
        };
        if self.wants(RESOURCE_MEMBER) {
            match &cmd.member {
                Some(pm) => {
                    match &pm.user {
                        Some(u) => {
                            match cmd.guild_id {
                                Some(g) => {
                                    self.cache_user(u, Some(g));
                                    let cached = CachedMember {
                                        deaf: Some(pm.deaf),
                                        guild_id: g,
                                        joined_at: clone_opt_string(&pm.joined_at),
                                        mute: Some(pm.mute),
                                        nick: clone_opt_string(&pm.nick),
                                        pending: false,
                                        premium_since: clone_opt_string(&pm.premium_since),
                                        roles: clone_vec_copy(&pm.roles),
                                        user_id: u.id,
                                    };
                                    proof {
                                        assert(cached@ =~= member_of_partial(*pm, g, u.id)@);
                                    }
                                    self.cache_member(g, cached);
                                    proof {
                                        assert(spec_cache_member(
                                            spec_cache_user(old(self)@, *u, Some(g@)),
                                            g@,
                                            cached,
                                        ) =~= spec_cache_member(
                                            spec_cache_user(old(self)@, *u, Some(g@)),
                                            g@,
                                            member_of_partial(*pm, g, u.id),
                                        ));
                                    }
                                },
                                None => {},
                            }
                        },
                        None => {},
                    }
                },
                None => {},
            }
        }
        let ghost s1 = spec_interaction_member_stage(old(self)@, **cmd);
        proof {
            assert(self@ =~= s1);
        }
        match &cmd.user {
            Some(u) => self.cache_user(u, None),
            None => {},
        }
        let ghost s2 = spec_interaction_user_stage(s1, **cmd);
        proof {
            assert(self@ =~= s2);
        }
        match &cmd.data.resolved {
            Some(res) => {
                let ghost target = spec_cache_resolved_users(
                    s2,
                    res.users@,
                    res.members@,
                    cmd.guild_id,
                );
                proof {
                    assert(res.users@.skip(0) =~= res.users@);
                }
                let n = res.users.len();
                for i in 0..n
                    invariant
                        self.inv(),
                        n == res.users@.len(),
                        spec_cache_resolved_users(
                            self@,
                            res.users@.skip(i as int),
                            res.members@,
                            cmd.guild_id,
                        ) == target,
                {
                    let ghost pre = self@;
                    let u = &res.users[i];
                    self.cache_user(u, cmd.guild_id);
                    let ghost after_user = spec_cache_user(
                        pre,
                        res.users@[i as int],
                        match cmd.guild_id {
                            Some(gid) => Some(gid@),
                            None => None,
                        },
                    );
                    proof {
                        assert(self@ == after_user);
                    }
                    if self.wants(RESOURCE_MEMBER) {
                        match cmd.guild_id {
                            Some(g) => {
                                match Self::find_member_payload(&res.members, u.id.get()) {
                                    Some(idx) => {
                                        proof {
                                            lemma_find_resolved_some(
                                                res.members@,
                                                res.users@[i as int].id@,
                                                idx as int,
                                            );
                                        }
                                        let im = &res.members[idx];
                                        let cached = CachedMember {
                                            deaf: None,
                                            guild_id: g,
                                            joined_at: clone_opt_string(&im.joined_at),
                                            mute: None,
                                            nick: clone_opt_string(&im.nick),
                                            pending: false,
                                            premium_since: clone_opt_string(&im.premium_since),
                                            roles: clone_vec_copy(&im.roles),
                                            user_id: im.id,
                                        };
                                        proof {
                                            assert(cached@ =~= member_of_interaction(
                                                res.members@[idx as int],
                                                g,
                                            )@);
                                        }
                                        self.cache_member(g, cached);
                                        proof {
                                            assert(spec_cache_member(after_user, g@, cached)
                                                =~= spec_cache_member(
                                                after_user,
                                                g@,
                                                member_of_interaction(res.members@[idx as int], g),
                                            ));
                                        }
                                    },
                                    None => {
                                        proof {
                                            lemma_find_resolved_none(
                                                res.members@,
                                                res.users@[i as int].id@,
                                            );
                                        }
                                    },
                                }
                            },
                            None => {},
                        }
                    }
                    proof {
                        assert(res.users@.skip(i as int)[0] == res.users@[i as int]);
                        assert(res.users@.skip(i as int).drop_first() =~= res.users@.skip(i + 1));
                        assert(spec_cache_resolved_users(
                            pre,
                            res.users@.skip(i as int),
                            res.members@,
                            cmd.guild_id,
                        ) == spec_cache_resolved_users(
                            self@,
                            res.users@.skip(i + 1),
                            res.members@,
                            cmd.guild_id,
                        ));
                    }
                }
                proof {
                    assert(res.users@.skip(n as int) =~= Seq::<User>::empty());
                    assert(self@ == target);
                    lemma_resolved_users_frame(s2, res.users@, res.members@, cmd.guild_id);
                    assert(self@.resource_types == s2.resource_types);
                }
                if self.wants(RESOURCE_ROLE) {
                    match cmd.guild_id {
                        Some(g) => {
                            let ghost rtarget = spec_role_chunk(self@, res.roles@, g@);
                            proof {
                                assert(res.roles@.skip(0) =~= res.roles@);
                            }
                            let m = res.roles.len();
                            for i in 0..m
                                invariant
                                    self.inv(),
                                    m == res.roles@.len(),
                                    spec_role_chunk(self@, res.roles@.skip(i as int), g@)
                                        == rtarget,
                            {
                                let ghost pre = self@;
                                let cloned = res.roles[i].clone();
                                self.cache_role(g, cloned);
                                proof {
                                    assert(spec_cache_role(pre, g@, cloned) =~= spec_cache_role(
                                        pre,
                                        g@,
                                        res.roles@[i as int],
                                    ));
                                    assert(res.roles@.skip(i as int)[0] == res.roles@[i as int]);
                                    assert(res.roles@.skip(i as int).drop_first()
                                        =~= res.roles@.skip(i + 1));
                                }
                            }
                            proof {
                                assert(res.roles@.skip(m as int) =~= Seq::<Role>::empty());
                                assert(self@ == rtarget);
                            }
                        },
                        None => {},
                    }
                }
            },
            None => {},
        }
        proof {
            assert(self@ =~= spec_interaction_create(old(self)@, *payload));
        }
    }
}

} // verus!
