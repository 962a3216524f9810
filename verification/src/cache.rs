//! The in-memory cache: a multi-table resource store with secondary indexes,
//! a bounded per-channel message window, and typed read accessors.
//!
//! The cache's view ([`CacheView`]) gives every table as a `Map`, every index
//! as a `Map` of `Set`s and every message window as a `Seq`, and the cache
//! invariant ([`cache_inv`]) ties them together: no dangling index entries,
//! no orphaned children, users retained while referenced, windows bounded,
//! and disabled categories empty.

use vstd::prelude::*;
use crate::channel::GroupView;
use crate::channel::Group;
use crate::channel::GuildChannel;
use crate::channel::GuildChannelView;
use crate::channel::PrivateChannel;
use crate::channel::PrivateChannelView;
use crate::channel::StageInstance;
use crate::channel::StageInstanceView;
use crate::config::Config;
use crate::config::InMemoryCacheBuilder;
use crate::config::RESOURCE_CHANNEL;
use crate::config::RESOURCE_EMOJI;
use crate::config::RESOURCE_GUILD;
use crate::config::RESOURCE_INTEGRATION;
use crate::config::RESOURCE_MEMBER;
use crate::config::RESOURCE_MESSAGE;
use crate::config::RESOURCE_PRESENCE;
use crate::config::RESOURCE_ROLE;
use crate::config::RESOURCE_STAGE_INSTANCE;
use crate::config::RESOURCE_USER_CURRENT;
use crate::config::RESOURCE_VOICE_STATE;
use crate::guild::CachedEmoji;
use crate::guild::CachedEmojiView;
use crate::guild::CachedGuild;
use crate::guild::CachedGuildView;
use crate::guild::CachedMember;
use crate::guild::CachedMemberView;
use crate::guild::GuildIntegration;
use crate::guild::GuildIntegrationView;
use crate::guild::Role;
use crate::guild::RoleView;
use crate::id::ChannelId;
use crate::id::EmojiId;
use crate::id::GuildId;
use crate::id::IntegrationId;
use crate::id::MessageId;
use crate::id::RoleId;
use crate::id::StageId;
use crate::id::UserId;
use crate::model::CachedMessage;
use crate::model::CachedMessageView;
use crate::model::CachedPresence;
use crate::store::IdMap;
use crate::store::IdSet;
use crate::store::PairMap;
use crate::store::PairSet;
use crate::user::CurrentUser;
use crate::user::CurrentUserView;
use crate::user::User;
use crate::user::UserView;
use crate::voice::VoiceState;
use crate::voice::VoiceStateView;

verus! {

/// An entity together with the guild that owns it.
pub struct GuildItem<T> {
    pub data: T,
    pub guild_id: GuildId,
}

/// A user record together with the guilds whose members reference it.
pub struct UserEntry {
    pub user: User,
    pub guilds: IdSet,
}

/// The view of a table of guild-owned entities: id to owning guild and value.
pub open spec fn item_table_view<T: View>(m: Map<u64, GuildItem<T>>) -> Map<u64, (u64, T::V)> {
    Map::new(|k: u64| m.dom().contains(k), |k: u64| (m[k].guild_id@, m[k].data@))
}

/// The view of a table of plain entities.
pub open spec fn table_view<T: View>(m: Map<u64, T>) -> Map<u64, T::V> {
    Map::new(|k: u64| m.dom().contains(k), |k: u64| m[k]@)
}

/// The view of a table keyed by a pair of ids.
pub open spec fn pair_table_view<T: View>(m: Map<(u64, u64), T>) -> Map<(u64, u64), T::V> {
    Map::new(|k: (u64, u64)| m.dom().contains(k), |k: (u64, u64)| m[k]@)
}

/// The view of an index: parent id to the set of child ids.
pub open spec fn index_view(m: Map<u64, IdSet>) -> Map<u64, Set<u64>> {
    Map::new(|k: u64| m.dom().contains(k), |k: u64| m[k]@)
}

/// The view of an index whose members are pairs of ids.
pub open spec fn pair_index_view(m: Map<u64, PairSet>) -> Map<u64, Set<(u64, u64)>> {
    Map::new(|k: u64| m.dom().contains(k), |k: u64| m[k]@)
}

/// The view of the message windows: channel id to the window's sequence.
pub open spec fn window_view(m: Map<u64, Vec<CachedMessage>>) -> Map<u64, Seq<CachedMessageView>> {
    Map::new(
        |k: u64| m.dom().contains(k),
        |k: u64| m[k]@.map_values(|msg: CachedMessage| msg@),
    )
}

/// The view of the user table: user id to the record and the referencing
/// guild ids.
pub open spec fn user_table_view(m: Map<u64, UserEntry>) -> Map<u64, (UserView, Set<u64>)> {
    Map::new(|k: u64| m.dom().contains(k), |k: u64| (m[k].user@, m[k].guilds@))
}

/// The mathematical state of the whole cache.
#[verifier::ext_equal]
pub struct CacheView {
    /// Bitmask of the resource categories that are maintained.
    pub resource_types: u64,
    /// Capacity of each channel's message window.
    pub message_cache_size: nat,
    /// Guild channels: channel id to owning guild id and channel.
    pub channels_guild: Map<u64, (u64, GuildChannelView)>,
    /// Private channels by channel id.
    pub channels_private: Map<u64, PrivateChannelView>,
    /// The current authenticated user.
    pub current_user: Option<CurrentUserView>,
    /// Custom emojis: emoji id to owning guild id and emoji.
    pub emojis: Map<u64, (u64, CachedEmojiView)>,
    /// Group channels by channel id.
    pub groups: Map<u64, GroupView>,
    /// Guilds by guild id.
    pub guilds: Map<u64, CachedGuildView>,
    /// Guild id to the ids of its channels.
    pub guild_channels: Map<u64, Set<u64>>,
    /// Guild id to the ids of its emojis.
    pub guild_emojis: Map<u64, Set<u64>>,
    /// Guild id to the ids of its integrations.
    pub guild_integrations: Map<u64, Set<u64>>,
    /// Guild id to the user ids of its members.
    pub guild_members: Map<u64, Set<u64>>,
    /// Guild id to the user ids with a cached presence.
    pub guild_presences: Map<u64, Set<u64>>,
    /// Guild id to the ids of its roles.
    pub guild_roles: Map<u64, Set<u64>>,
    /// Guild id to the ids of its stage instances.
    pub guild_stage_instances: Map<u64, Set<u64>>,
    /// Integrations keyed by guild id and integration id.
    pub integrations: Map<(u64, u64), GuildIntegrationView>,
    /// Members keyed by guild id and user id.
    pub members: Map<(u64, u64), CachedMemberView>,
    /// Message windows: channel id to the retained history, oldest first.
    pub messages: Map<u64, Seq<CachedMessageView>>,
    /// Presences keyed by guild id and user id.
    pub presences: Map<(u64, u64), CachedPresence>,
    /// Roles: role id to owning guild id and role.
    pub roles: Map<u64, (u64, RoleView)>,
    /// Stage instances: stage id to owning guild id and instance.
    pub stage_instances: Map<u64, (u64, StageInstanceView)>,
    /// Ids of guilds that are currently unavailable.
    pub unavailable_guilds: Set<u64>,
    /// Users: user id to the record and the guilds referencing it.
    pub users: Map<u64, (UserView, Set<u64>)>,
    /// Voice channel id to the (guild, user) pairs connected to it.
    pub voice_state_channels: Map<u64, Set<(u64, u64)>>,
    /// Guild id to the user ids connected to its voice channels.
    pub voice_state_guilds: Map<u64, Set<u64>>,
    /// Voice states keyed by guild id and user id.
    pub voice_states: Map<(u64, u64), VoiceStateView>,
}

impl CacheView {
    /// The state of a freshly built cache.
    pub open spec fn empty(resource_types: u64, message_cache_size: nat) -> CacheView {
        CacheView {
            resource_types,
            message_cache_size,
            channels_guild: Map::empty(),
            channels_private: Map::empty(),
            current_user: None,
            emojis: Map::empty(),
            groups: Map::empty(),
            guilds: Map::empty(),
            guild_channels: Map::empty(),
            guild_emojis: Map::empty(),
            guild_integrations: Map::empty(),
            guild_members: Map::empty(),
            guild_presences: Map::empty(),
            guild_roles: Map::empty(),
            guild_stage_instances: Map::empty(),
            integrations: Map::empty(),
            members: Map::empty(),
            messages: Map::empty(),
            presences: Map::empty(),
            roles: Map::empty(),
            stage_instances: Map::empty(),
            unavailable_guilds: Set::empty(),
            users: Map::empty(),
            voice_state_channels: Map::empty(),
            voice_state_guilds: Map::empty(),
            voice_states: Map::empty(),
        }
    }

    /// Whether a resource category is maintained.
    pub open spec fn wants(self, category: u64) -> bool {
        self.resource_types & category != 0
    }
}

/// A guild-owned table and its index agree: every stored entity is indexed
/// under its owner, and every indexed id is stored with that owner.
pub open spec fn linked<TV>(table: Map<u64, (u64, TV)>, index: Map<u64, Set<u64>>) -> bool {
    &&& forall|c: u64| #[trigger]
        table.dom().contains(c) ==> index.dom().contains(table[c].0) && index[table[c].0].contains(
            c,
        )
    &&& forall|g: u64, c: u64|
        index.dom().contains(g) && #[trigger] index[g].contains(c) ==> table.dom().contains(c)
            && table[c].0 == g
}

/// A pair-keyed table and its index agree.
pub open spec fn linked_pair<TV>(table: Map<(u64, u64), TV>, index: Map<u64, Set<u64>>) -> bool {
    &&& forall|g: u64, u: u64| #[trigger]
        table.dom().contains((g, u)) ==> index.dom().contains(g) && index[g].contains(u)
    &&& forall|g: u64, u: u64|
        index.dom().contains(g) && #[trigger] index[g].contains(u) ==> table.dom().contains((g, u))
}

/// Every member references a stored user record that lists the member's
/// guild in its reference set, so the record is retained at least until
/// every referencing member is gone.
pub open spec fn users_linked(
    members: Map<(u64, u64), CachedMemberView>,
    users: Map<u64, (UserView, Set<u64>)>,
) -> bool {
    forall|g: u64, u: u64| #[trigger]
        members.dom().contains((g, u)) ==> users.dom().contains(u) && users[u].1.contains(g)
}

/// The two voice-state indexes agree with the voice-state table.
pub open spec fn voice_linked(s: CacheView) -> bool {
    &&& forall|g: u64, u: u64| #[trigger]
        s.voice_states.dom().contains((g, u)) ==> {
            &&& s.voice_states[(g, u)].guild_id == Some(g)
            &&& s.voice_states[(g, u)].user_id == u
            &&& s.voice_states[(g, u)].channel_id is Some
            &&& s.voice_state_guilds.dom().contains(g)
            &&& s.voice_state_guilds[g].contains(u)
            &&& s.voice_state_channels.dom().contains(s.voice_states[(g, u)].channel_id->0)
            &&& s.voice_state_channels[s.voice_states[(g, u)].channel_id->0].contains((g, u))
        }
    &&& forall|g: u64, u: u64|
        s.voice_state_guilds.dom().contains(g) && #[trigger] s.voice_state_guilds[g].contains(u)
            ==> s.voice_states.dom().contains((g, u))
    &&& forall|c: u64, p: (u64, u64)|
        s.voice_state_channels.dom().contains(c) && #[trigger] s.voice_state_channels[c].contains(
            p,
        ) ==> s.voice_states.dom().contains(p) && s.voice_states[p].channel_id == Some(c)
}

/// Each entity records the key it is stored under.
pub open spec fn keys_coherent(s: CacheView) -> bool {
    &&& forall|c: u64| #[trigger] s.channels_guild.dom().contains(c) ==> s.channels_guild[c].1.id
        == c
    &&& forall|c: u64| #[trigger] s.channels_private.dom().contains(c) ==> s.channels_private[c].id
        == c
    &&& forall|c: u64| #[trigger] s.groups.dom().contains(c) ==> s.groups[c].id == c
    &&& forall|g: u64| #[trigger] s.guilds.dom().contains(g) ==> s.guilds[g].id == g
    &&& forall|e: u64| #[trigger] s.emojis.dom().contains(e) ==> s.emojis[e].1.id == e
    &&& forall|r: u64| #[trigger] s.roles.dom().contains(r) ==> s.roles[r].1.id == r
    &&& forall|t: u64| #[trigger] s.stage_instances.dom().contains(t) ==> s.stage_instances[t].1.id
        == t && s.stage_instances[t].1.guild_id == s.stage_instances[t].0
    &&& forall|g: u64, i: u64| #[trigger] s.integrations.dom().contains((g, i))
        ==> s.integrations[(g, i)].id == i
    &&& forall|g: u64, u: u64| #[trigger] s.members.dom().contains((g, u)) ==> s.members[(
        g,
        u,
    )].guild_id == g && s.members[(g, u)].user_id == u
    &&& forall|g: u64, u: u64| #[trigger] s.presences.dom().contains((g, u)) ==> s.presences[(
        g,
        u,
    )].guild_id@ == g && s.presences[(g, u)].user_id@ == u
    &&& forall|u: u64| #[trigger] s.users.dom().contains(u) ==> s.users[u].0.id == u
}

/// Every message window respects the configured capacity and holds only
/// messages of its channel.
pub open spec fn windows_bounded(s: CacheView) -> bool {
    forall|ch: u64| #[trigger]
        s.messages.dom().contains(ch) ==> {
            &&& s.messages[ch].len() <= s.message_cache_size
            &&& forall|i: int|
                0 <= i < s.messages[ch].len() ==> (#[trigger] s.messages[ch][i]).channel_id == ch
        }
}

/// Disabled resource categories hold nothing: a query against them is
/// indistinguishable from one against a cache that never saw such an event.
pub open spec fn gates_respected(s: CacheView) -> bool {
    &&& !s.wants(RESOURCE_CHANNEL) ==> {
        &&& forall|c: u64| !(#[trigger] s.channels_guild.dom().contains(c))
        &&& forall|c: u64| !(#[trigger] s.channels_private.dom().contains(c))
        &&& forall|c: u64| !(#[trigger] s.groups.dom().contains(c))
        &&& forall|g: u64| !(#[trigger] s.guild_channels.dom().contains(g))
    }
    &&& !s.wants(RESOURCE_EMOJI) ==> {
        &&& forall|e: u64| !(#[trigger] s.emojis.dom().contains(e))
        &&& forall|g: u64| !(#[trigger] s.guild_emojis.dom().contains(g))
    }
    &&& !s.wants(RESOURCE_GUILD) ==> {
        &&& forall|g: u64| !(#[trigger] s.guilds.dom().contains(g))
        &&& forall|g: u64| !(#[trigger] s.unavailable_guilds.contains(g))
    }
    &&& !s.wants(RESOURCE_INTEGRATION) ==> {
        &&& forall|p: (u64, u64)| !(#[trigger] s.integrations.dom().contains(p))
        &&& forall|g: u64| !(#[trigger] s.guild_integrations.dom().contains(g))
    }
    &&& !s.wants(RESOURCE_MEMBER) ==> {
        &&& forall|p: (u64, u64)| !(#[trigger] s.members.dom().contains(p))
        &&& forall|g: u64| !(#[trigger] s.guild_members.dom().contains(g))
    }
    &&& !s.wants(RESOURCE_MESSAGE) ==> forall|ch: u64|
        !(#[trigger] s.messages.dom().contains(ch))
    &&& !s.wants(RESOURCE_PRESENCE) ==> {
        &&& forall|p: (u64, u64)| !(#[trigger] s.presences.dom().contains(p))
        &&& forall|g: u64| !(#[trigger] s.guild_presences.dom().contains(g))
    }
    &&& !s.wants(RESOURCE_ROLE) ==> {
        &&& forall|r: u64| !(#[trigger] s.roles.dom().contains(r))
        &&& forall|g: u64| !(#[trigger] s.guild_roles.dom().contains(g))
    }
    &&& !s.wants(RESOURCE_STAGE_INSTANCE) ==> {
        &&& forall|t: u64| !(#[trigger] s.stage_instances.dom().contains(t))
        &&& forall|g: u64| !(#[trigger] s.guild_stage_instances.dom().contains(g))
    }
    &&& !s.wants(RESOURCE_USER_CURRENT) ==> s.current_user is None
    &&& !s.wants(RESOURCE_VOICE_STATE) ==> {
        &&& forall|p: (u64, u64)| !(#[trigger] s.voice_states.dom().contains(p))
        &&& forall|c: u64| !(#[trigger] s.voice_state_channels.dom().contains(c))
        &&& forall|g: u64| !(#[trigger] s.voice_state_guilds.dom().contains(g))
    }
}

/// The cache invariant over its view: indexes complete and sound, users
/// retained while referenced, voice indexes coherent, windows bounded, and
/// disabled categories empty.
pub open spec fn cache_inv(s: CacheView) -> bool {
    &&& linked(s.channels_guild, s.guild_channels)
    &&& linked(s.emojis, s.guild_emojis)
    &&& linked(s.roles, s.guild_roles)
    &&& linked(s.stage_instances, s.guild_stage_instances)
    &&& linked_pair(s.integrations, s.guild_integrations)
    &&& linked_pair(s.members, s.guild_members)
    &&& linked_pair(s.presences, s.guild_presences)
    &&& users_linked(s.members, s.users)
    &&& voice_linked(s)
    &&& keys_coherent(s)
    &&& windows_bounded(s)
    &&& gates_respected(s)
}

/// The in-memory cache of the remote service's state.
///
/// Events are ingested through [`InMemoryCache::update`]; consumers query the
/// typed accessors instead of re-requesting state over the network. A cheaply
/// duplicable shared handle belongs to the embedding application, which wraps
/// one cache value behind a reference-counted lock.
pub struct InMemoryCache {
    pub config: Config,
    pub channels_guild: IdMap<GuildItem<GuildChannel>>,
    pub channels_private: IdMap<PrivateChannel>,
    pub current_user: Option<CurrentUser>,
    pub emojis: IdMap<GuildItem<CachedEmoji>>,
    pub groups: IdMap<Group>,
    pub guilds: IdMap<CachedGuild>,
    pub guild_channels: IdMap<IdSet>,
    pub guild_emojis: IdMap<IdSet>,
    pub guild_integrations: IdMap<IdSet>,
    pub guild_members: IdMap<IdSet>,
    pub guild_presences: IdMap<IdSet>,
    pub guild_roles: IdMap<IdSet>,
    pub guild_stage_instances: IdMap<IdSet>,
    pub integrations: PairMap<GuildIntegration>,
    pub members: PairMap<CachedMember>,
    pub messages: IdMap<Vec<CachedMessage>>,
    pub presences: PairMap<CachedPresence>,
    pub roles: IdMap<GuildItem<Role>>,
    pub stage_instances: IdMap<GuildItem<StageInstance>>,
    pub unavailable_guilds: IdSet,
    pub users: IdMap<UserEntry>,
    pub voice_state_channels: IdMap<PairSet>,
    pub voice_state_guilds: IdMap<IdSet>,
    pub voice_states: PairMap<VoiceState>,
}

impl View for InMemoryCache {
    type V = CacheView;

    open spec fn view(&self) -> CacheView {
        CacheView {
            resource_types: self.config.resource_types,
            message_cache_size: self.config.message_cache_size as nat,
            channels_guild: item_table_view(self.channels_guild@),
            channels_private: table_view(self.channels_private@),
            current_user: match self.current_user {
                Some(u) => Some(u@),
                None => None,
            },
            emojis: item_table_view(self.emojis@),
            groups: table_view(self.groups@),
            guilds: table_view(self.guilds@),
            guild_channels: index_view(self.guild_channels@),
            guild_emojis: index_view(self.guild_emojis@),
            guild_integrations: index_view(self.guild_integrations@),
            guild_members: index_view(self.guild_members@),
            guild_presences: index_view(self.guild_presences@),
            guild_roles: index_view(self.guild_roles@),
            guild_stage_instances: index_view(self.guild_stage_instances@),
            integrations: pair_table_view(self.integrations@),
            members: pair_table_view(self.members@),
            messages: window_view(self.messages@),
            presences: pair_table_view(self.presences@),
            roles: item_table_view(self.roles@),
            stage_instances: item_table_view(self.stage_instances@),
            unavailable_guilds: self.unavailable_guilds@,
            users: user_table_view(self.users@),
            voice_state_channels: pair_index_view(self.voice_state_channels@),
            voice_state_guilds: index_view(self.voice_state_guilds@),
            voice_states: pair_table_view(self.voice_states@),
        }
    }
}

impl InMemoryCache {
    /// The backing tables are well formed: distinct keys and duplicate-free
    /// sets throughout.
    pub open spec fn wf(&self) -> bool {
        &&& self.channels_guild.wf()
        &&& self.channels_private.wf()
        &&& self.emojis.wf()
        &&& self.groups.wf()
        &&& self.guilds.wf()
        &&& self.guild_channels.wf()
        &&& self.guild_emojis.wf()
        &&& self.guild_integrations.wf()
        &&& self.guild_members.wf()
        &&& self.guild_presences.wf()
        &&& self.guild_roles.wf()
        &&& self.guild_stage_instances.wf()
        &&& self.integrations.wf()
        &&& self.members.wf()
        &&& self.messages.wf()
        &&& self.presences.wf()
        &&& self.roles.wf()
        &&& self.stage_instances.wf()
        &&& self.unavailable_guilds.wf()
        &&& self.users.wf()
        &&& self.voice_state_channels.wf()
        &&& self.voice_state_guilds.wf()
        &&& self.voice_states.wf()
        &&& forall|g: u64| #[trigger] self.guild_channels@.dom().contains(g)
            ==> self.guild_channels@[g].wf()
        &&& forall|g: u64| #[trigger] self.guild_emojis@.dom().contains(g)
            ==> self.guild_emojis@[g].wf()
        &&& forall|g: u64| #[trigger] self.guild_integrations@.dom().contains(g)
            ==> self.guild_integrations@[g].wf()
        &&& forall|g: u64| #[trigger] self.guild_members@.dom().contains(g)
            ==> self.guild_members@[g].wf()
        &&& forall|g: u64| #[trigger] self.guild_presences@.dom().contains(g)
            ==> self.guild_presences@[g].wf()
        &&& forall|g: u64| #[trigger] self.guild_roles@.dom().contains(g)
            ==> self.guild_roles@[g].wf()
        &&& forall|g: u64| #[trigger] self.guild_stage_instances@.dom().contains(g)
            ==> self.guild_stage_instances@[g].wf()
        &&& forall|u: u64| #[trigger] self.users@.dom().contains(u) ==> self.users@[u].guilds.wf()
        &&& forall|c: u64| #[trigger] self.voice_state_channels@.dom().contains(c)
            ==> self.voice_state_channels@[c].wf()
        &&& forall|g: u64| #[trigger] self.voice_state_guilds@.dom().contains(g)
            ==> self.voice_state_guilds@[g].wf()
    }

    /// The cache is well formed and its view satisfies the cache invariant.
    pub open spec fn inv(&self) -> bool {
        &&& self.wf()
        &&& cache_inv(self@)
    }

    /// Creates a new, empty cache that maintains every resource category.
    pub fn new() -> (r: Self)
        ensures
            r@ == CacheView::empty(
                crate::config::RESOURCE_ALL,
                crate::config::DEFAULT_MESSAGE_CACHE_SIZE as nat,
            ),
            r.inv(),
    {
        Self::new_with_config(Config::new())
    }

    /// Creates a builder to configure and construct a cache.
    pub fn builder() -> (r: InMemoryCacheBuilder)
        ensures
            r.config().resource_types == crate::config::RESOURCE_ALL,
            r.config().message_cache_size == crate::config::DEFAULT_MESSAGE_CACHE_SIZE,
    {
        InMemoryCacheBuilder::new()
    }

    /// Creates a new, empty cache with the given configuration.
    pub fn new_with_config(config: Config) -> (r: Self)
        ensures
            r@ == CacheView::empty(config.resource_types, config.message_cache_size as nat),
            r.inv(),
    {
        let c = InMemoryCache {
            config,
            channels_guild: IdMap::new(),
            channels_private: IdMap::new(),
            current_user: None,
            emojis: IdMap::new(),
            groups: IdMap::new(),
            guilds: IdMap::new(),
            guild_channels: IdMap::new(),
            guild_emojis: IdMap::new(),
            guild_integrations: IdMap::new(),
            guild_members: IdMap::new(),
            guild_presences: IdMap::new(),
            guild_roles: IdMap::new(),
            guild_stage_instances: IdMap::new(),
            integrations: PairMap::new(),
            members: PairMap::new(),
            messages: IdMap::new(),
            presences: PairMap::new(),
            roles: IdMap::new(),
            stage_instances: IdMap::new(),
            unavailable_guilds: IdSet::new(),
            users: IdMap::new(),
            voice_state_channels: IdMap::new(),
            voice_state_guilds: IdMap::new(),
            voice_states: PairMap::new(),
        };
        proof {
            assert(c@ =~= CacheView::empty(
                config.resource_types,
                config.message_cache_size as nat,
            ));
        }
        c
    }

    /// Clears the cache's state, leaving it as a freshly built cache with the
    /// same configuration.
    pub fn clear(&mut self)
        ensures
            final(self)@ == CacheView::empty(
                old(self)@.resource_types,
                old(self)@.message_cache_size,
            ),
            final(self).inv(),
    {
        self.channels_guild.clear();
        self.channels_private.clear();
        self.current_user = None;
        self.emojis.clear();
        self.groups.clear();
        self.guilds.clear();
        self.guild_channels.clear();
        self.guild_emojis.clear();
        self.guild_integrations.clear();
        self.guild_members.clear();
        self.guild_presences.clear();
        self.guild_roles.clear();
        self.guild_stage_instances.clear();
        self.integrations.clear();
        self.members.clear();
        self.messages.clear();
        self.presences.clear();
        self.roles.clear();
        self.stage_instances.clear();
        self.unavailable_guilds.clear();
        self.users.clear();
        self.voice_state_channels.clear();
        self.voice_state_guilds.clear();
        self.voice_states.clear();
        proof {
            assert(self@ =~= CacheView::empty(
                old(self)@.resource_types,
                old(self)@.message_cache_size,
            ));
        }
    }

    /// Returns a copy of the cache's configuration.
    pub fn config(&self) -> (r: Config)
        ensures
            r.resource_types == self@.resource_types,
            r.message_cache_size as nat == self@.message_cache_size,
    {
        self.config
    }

    /// Whether the configured cache wants a resource category processed.
    pub fn wants(&self, category: u64) -> (r: bool)
        ensures
            r == self@.wants(category),
    {
        self.config.resource_types & category != 0
    }
}


/// Whether the window holds a message with the given id.
pub open spec fn window_has(w: Seq<CachedMessageView>, id: u64) -> bool {
    exists|i: int| 0 <= i < w.len() && w[i].id == id
}

/// The position of the first message with the given id; meaningful only when
/// [`window_has`] holds.
pub open spec fn window_first(w: Seq<CachedMessageView>, id: u64) -> int {
    choose|i: int|
        0 <= i < w.len() && w[i].id == id && (forall|j: int| 0 <= j < i ==> w[j].id != id)
}

proof fn lemma_window_min_witness(w: Seq<CachedMessageView>, id: u64, k: int)
    requires
        0 <= k < w.len(),
        w[k].id == id,
    ensures
        exists|i: int|
            0 <= i < w.len() && w[i].id == id && (forall|j: int| 0 <= j < i ==> w[j].id != id),
    decreases k,
{
    if forall|j: int| 0 <= j < k ==> w[j].id != id {
    } else {
        let j = choose|j: int| 0 <= j < k && w[j].id == id;
        lemma_window_min_witness(w, id, j);
    }
}

/// When a message with the id is in the window, `window_first` is the first
/// position holding it.
pub proof fn lemma_window_first(w: Seq<CachedMessageView>, id: u64)
    requires
        window_has(w, id),
    ensures
        0 <= window_first(w, id) < w.len(),
        w[window_first(w, id)].id == id,
        forall|j: int| 0 <= j < window_first(w, id) ==> w[j].id != id,
{
    let k = choose|i: int| 0 <= i < w.len() && w[i].id == id;
    lemma_window_min_witness(w, id, k);
}

/// The read-only query surface: typed getters over the store and the
/// indexes. No mutation path exists through these.
impl InMemoryCache {
    /// Gets the current user.
    pub fn current_user(&self) -> (r: Option<CurrentUser>)
        ensures
            match r {
                Some(u) => self@.current_user == Some(u@),
                None => self@.current_user is None,
            },
    {
        match &self.current_user {
            Some(u) => Some(u.clone()),
            None => None,
        }
    }

    /// Gets an emoji by ID.
    pub fn emoji(&self, emoji_id: EmojiId) -> (r: Option<CachedEmoji>)
        requires
            self.inv(),
        ensures
            match r {
                Some(e) => self@.emojis.dom().contains(emoji_id@) && e@ == self@.emojis[emoji_id@].1,
                None => !self@.emojis.dom().contains(emoji_id@),
            },
    {
        match self.emojis.get(emoji_id.get()) {
            Some(item) => Some(item.data.clone()),
            None => None,
        }
    }

    /// Gets a group by ID.
    pub fn group(&self, channel_id: ChannelId) -> (r: Option<Group>)
        requires
            self.inv(),
        ensures
            match r {
                Some(g) => self@.groups.dom().contains(channel_id@) && g@ == self@.groups[channel_id@],
                None => !self@.groups.dom().contains(channel_id@),
            },
    {
        match self.groups.get(channel_id.get()) {
            Some(g) => Some(g.clone()),
            None => None,
        }
    }

    /// Gets a guild by ID.
    pub fn guild(&self, guild_id: GuildId) -> (r: Option<CachedGuild>)
        requires
            self.inv(),
        ensures
            match r {
                Some(g) => self@.guilds.dom().contains(guild_id@) && g@ == self@.guilds[guild_id@],
                None => !self@.guilds.dom().contains(guild_id@),
            },
    {
        match self.guilds.get(guild_id.get()) {
            Some(g) => Some(g.clone()),
            None => None,
        }
    }

    /// Gets a guild channel by ID.
    pub fn guild_channel(&self, channel_id: ChannelId) -> (r: Option<GuildChannel>)
        requires
            self.inv(),
        ensures
            match r {
                Some(c) => self@.channels_guild.dom().contains(channel_id@) && c@
                    == self@.channels_guild[channel_id@].1,
                None => !self@.channels_guild.dom().contains(channel_id@),
            },
    {
        match self.channels_guild.get(channel_id.get()) {
            Some(item) => Some(item.data.clone()),
            None => None,
        }
    }

    /// Gets a private channel by ID.
    pub fn private_channel(&self, channel_id: ChannelId) -> (r: Option<PrivateChannel>)
        requires
            self.inv(),
        ensures
            match r {
                Some(c) => self@.channels_private.dom().contains(channel_id@) && c@
                    == self@.channels_private[channel_id@],
                None => !self@.channels_private.dom().contains(channel_id@),
            },
    {
        match self.channels_private.get(channel_id.get()) {
            Some(c) => Some(c.clone()),
            None => None,
        }
    }

    /// Gets a member by guild ID and user ID.
    pub fn member(&self, guild_id: GuildId, user_id: UserId) -> (r: Option<CachedMember>)
        requires
            self.inv(),
        ensures
            match r {
                Some(m) => self@.members.dom().contains((guild_id@, user_id@)) && m@
                    == self@.members[(guild_id@, user_id@)],
                None => !self@.members.dom().contains((guild_id@, user_id@)),
            },
    {
        match self.members.get((guild_id.get(), user_id.get())) {
            Some(m) => Some(m.clone()),
            None => None,
        }
    }

    /// Gets a presence by guild ID and user ID.
    pub fn presence(&self, guild_id: GuildId, user_id: UserId) -> (r: Option<CachedPresence>)
        requires
            self.inv(),
        ensures
            match r {
                Some(p) => self@.presences.dom().contains((guild_id@, user_id@)) && p
                    == self@.presences[(guild_id@, user_id@)],
                None => !self@.presences.dom().contains((guild_id@, user_id@)),
            },
    {
        match self.presences.get((guild_id.get(), user_id.get())) {
            Some(p) => Some(*p),
            None => None,
        }
    }

    /// Gets a role by ID.
    pub fn role(&self, role_id: RoleId) -> (r: Option<Role>)
        requires
            self.inv(),
        ensures
            match r {
                Some(x) => self@.roles.dom().contains(role_id@) && x@ == self@.roles[role_id@].1,
                None => !self@.roles.dom().contains(role_id@),
            },
    {
        match self.roles.get(role_id.get()) {
            Some(item) => Some(item.data.clone()),
            None => None,
        }
    }

    /// Gets a stage instance by ID.
    pub fn stage_instance(&self, stage_id: StageId) -> (r: Option<StageInstance>)
        requires
            self.inv(),
        ensures
            match r {
                Some(x) => self@.stage_instances.dom().contains(stage_id@) && x@
                    == self@.stage_instances[stage_id@].1,
                None => !self@.stage_instances.dom().contains(stage_id@),
            },
    {
        match self.stage_instances.get(stage_id.get()) {
            Some(item) => Some(item.data.clone()),
            None => None,
        }
    }

    /// Gets a user by ID.
    pub fn user(&self, user_id: UserId) -> (r: Option<User>)
        requires
            self.inv(),
        ensures
            match r {
                Some(u) => self@.users.dom().contains(user_id@) && u@ == self@.users[user_id@].0,
                None => !self@.users.dom().contains(user_id@),
            },
    {
        match self.users.get(user_id.get()) {
            Some(entry) => Some(entry.user.clone()),
            None => None,
        }
    }

    /// Gets a voice state by user ID and guild ID.
    pub fn voice_state(&self, user_id: UserId, guild_id: GuildId) -> (r: Option<VoiceState>)
        requires
            self.inv(),
        ensures
            match r {
                Some(v) => self@.voice_states.dom().contains((guild_id@, user_id@)) && v@
                    == self@.voice_states[(guild_id@, user_id@)],
                None => !self@.voice_states.dom().contains((guild_id@, user_id@)),
            },
    {
        match self.voice_states.get((guild_id.get(), user_id.get())) {
            Some(v) => Some(v.clone()),
            None => None,
        }
    }

    /// Gets a message by channel ID and message ID, scanning the channel's
    /// window.
    pub fn message(&self, channel_id: ChannelId, message_id: MessageId) -> (r: Option<
        CachedMessage,
    >)
        requires
            self.inv(),
        ensures
            match r {
                Some(m) => self@.messages.dom().contains(channel_id@) && window_has(
                    self@.messages[channel_id@],
                    message_id@,
                ) && m@ == self@.messages[channel_id@][window_first(
                    self@.messages[channel_id@],
                    message_id@,
                )],
                None => !self@.messages.dom().contains(channel_id@) || !window_has(
                    self@.messages[channel_id@],
                    message_id@,
                ),
            },
    {
        let window = match self.messages.get(channel_id.get()) {
            Some(w) => w,
            None => {
                return None;
            },
        };
        let ghost wv = self@.messages[channel_id@];
        proof {
            assert(wv =~= window@.map_values(|msg: CachedMessage| msg@));
        }
        let n = window.len();
        for i in 0..n
            invariant
                n == window@.len(),
                self@.messages.dom().contains(channel_id@),
                wv == self@.messages[channel_id@],
                wv == window@.map_values(|msg: CachedMessage| msg@),
                forall|j: int| 0 <= j < i ==> (#[trigger] window@[j])@.id != message_id@,
        {
            if window[i].id.get() == message_id.get() {
                let m = window[i].clone();
                proof {
                    assert(forall|j: int|
                        0 <= j < i ==> wv[j] == (#[trigger] window@[j])@);
                    assert(wv[i as int] == window@[i as int]@);
                    assert(wv[i as int].id == message_id@);
                    lemma_window_first(wv, message_id@);
                    let f = window_first(wv, message_id@);
                    if f < i as int {
                        assert(wv[f].id != message_id@);
                    }
                    if f > i as int {
                        assert(wv[i as int].id != message_id@);
                    }
                    assert(f == i as int);
                    assert(m@ == wv[i as int]);
                }
                return Some(m);
            }
        }
        proof {
            assert forall|j: int| 0 <= j < wv.len() implies wv[j].id != message_id@ by {
                assert(wv[j] == window@[j]@);
            }
        }
        None
    }

    /// Gets the ids of a guild's channels.
    pub fn guild_channels(&self, guild_id: GuildId) -> (r: Option<Vec<ChannelId>>)
        requires
            self.inv(),
        ensures
            match r {
                Some(v) => self@.guild_channels.dom().contains(guild_id@) && crate::util::id_seq_view(
                    v@,
                ).to_set() == self@.guild_channels[guild_id@] && v@.len()
                    == self@.guild_channels[guild_id@].len(),
                None => !self@.guild_channels.dom().contains(guild_id@),
            },
    {
        match self.guild_channels.get(guild_id.get()) {
            Some(set) => {
                let ids = set.to_vec();
                proof {
                    set.lemma_seq_view();
                    ids@.unique_seq_to_set();
                }
                let mut out: Vec<ChannelId> = Vec::new();
                let n = ids.len();
                for i in 0..n
                    invariant
                        n == ids@.len(),
                        out@.len() == i,
                        forall|j: int| 0 <= j < i ==> (#[trigger] out@[j])@ == ids@[j],
                {
                    out.push(ChannelId::from_raw(ids[i]));
                }
                proof {
                    assert(crate::util::id_seq_view(out@) =~= ids@);
                }
                Some(out)
            },
            None => None,
        }
    }

    /// Gets the ids of a guild's emojis.
    pub fn guild_emojis(&self, guild_id: GuildId) -> (r: Option<Vec<EmojiId>>)
        requires
            self.inv(),
        ensures
            match r {
                Some(v) => self@.guild_emojis.dom().contains(guild_id@) && crate::util::id_seq_view(
                    v@,
                ).to_set() == self@.guild_emojis[guild_id@] && v@.len()
                    == self@.guild_emojis[guild_id@].len(),
                None => !self@.guild_emojis.dom().contains(guild_id@),
            },
    {
        match self.guild_emojis.get(guild_id.get()) {
            Some(set) => {
                let ids = set.to_vec();
                proof {
                    set.lemma_seq_view();
                    ids@.unique_seq_to_set();
                }
                let mut out: Vec<EmojiId> = Vec::new();
                let n = ids.len();
                for i in 0..n
                    invariant
                        n == ids@.len(),
                        out@.len() == i,
                        forall|j: int| 0 <= j < i ==> (#[trigger] out@[j])@ == ids@[j],
                {
                    out.push(EmojiId::from_raw(ids[i]));
                }
                proof {
                    assert(crate::util::id_seq_view(out@) =~= ids@);
                }
                Some(out)
            },
            None => None,
        }
    }

    /// Gets the ids of a guild's members. The list may be incomplete if not
    /// all members have been cached.
    pub fn guild_members(&self, guild_id: GuildId) -> (r: Option<Vec<UserId>>)
        requires
            self.inv(),
        ensures
            match r {
                Some(v) => self@.guild_members.dom().contains(guild_id@) && crate::util::id_seq_view(
                    v@,
                ).to_set() == self@.guild_members[guild_id@] && v@.len()
                    == self@.guild_members[guild_id@].len(),
                None => !self@.guild_members.dom().contains(guild_id@),
            },
    {
        match self.guild_members.get(guild_id.get()) {
            Some(set) => {
                let ids = set.to_vec();
                proof {
                    set.lemma_seq_view();
                    ids@.unique_seq_to_set();
                }
                let mut out: Vec<UserId> = Vec::new();
                let n = ids.len();
                for i in 0..n
                    invariant
                        n == ids@.len(),
                        out@.len() == i,
                        forall|j: int| 0 <= j < i ==> (#[trigger] out@[j])@ == ids@[j],
                {
                    out.push(UserId::from_raw(ids[i]));
                }
                proof {
                    assert(crate::util::id_seq_view(out@) =~= ids@);
                }
                Some(out)
            },
            None => None,
        }
    }

    /// Gets the ids of the users with a cached presence in a guild.
    pub fn guild_presences(&self, guild_id: GuildId) -> (r: Option<Vec<UserId>>)
        requires
            self.inv(),
        ensures
            match r {
                Some(v) => self@.guild_presences.dom().contains(guild_id@)
                    && crate::util::id_seq_view(v@).to_set() == self@.guild_presences[guild_id@]
                    && v@.len() == self@.guild_presences[guild_id@].len(),
                None => !self@.guild_presences.dom().contains(guild_id@),
            },
    {
        match self.guild_presences.get(guild_id.get()) {
            Some(set) => {
                let ids = set.to_vec();
                proof {
                    set.lemma_seq_view();
                    ids@.unique_seq_to_set();
                }
                let mut out: Vec<UserId> = Vec::new();
                let n = ids.len();
                for i in 0..n
                    invariant
                        n == ids@.len(),
                        out@.len() == i,
                        forall|j: int| 0 <= j < i ==> (#[trigger] out@[j])@ == ids@[j],
                {
                    out.push(UserId::from_raw(ids[i]));
                }
                proof {
                    assert(crate::util::id_seq_view(out@) =~= ids@);
                }
                Some(out)
            },
            None => None,
        }
    }

    /// Gets the ids of a guild's roles.
    pub fn guild_roles(&self, guild_id: GuildId) -> (r: Option<Vec<RoleId>>)
        requires
            self.inv(),
        ensures
            match r {
                Some(v) => self@.guild_roles.dom().contains(guild_id@) && crate::util::id_seq_view(
                    v@,
                ).to_set() == self@.guild_roles[guild_id@] && v@.len()
                    == self@.guild_roles[guild_id@].len(),
                None => !self@.guild_roles.dom().contains(guild_id@),
            },
    {
        match self.guild_roles.get(guild_id.get()) {
            Some(set) => {
                let ids = set.to_vec();
                proof {
                    set.lemma_seq_view();
                    ids@.unique_seq_to_set();
                }
                let mut out: Vec<RoleId> = Vec::new();
                let n = ids.len();
                for i in 0..n
                    invariant
                        n == ids@.len(),
                        out@.len() == i,
                        forall|j: int| 0 <= j < i ==> (#[trigger] out@[j])@ == ids@[j],
                {
                    out.push(RoleId::from_raw(ids[i]));
                }
                proof {
                    assert(crate::util::id_seq_view(out@) =~= ids@);
                }
                Some(out)
            },
            None => None,
        }
    }

    /// Gets the ids of a guild's stage instances.
    pub fn guild_stage_instances(&self, guild_id: GuildId) -> (r: Option<Vec<StageId>>)
        requires
            self.inv(),
        ensures
            match r {
                Some(v) => self@.guild_stage_instances.dom().contains(guild_id@)
                    && crate::util::id_seq_view(v@).to_set()
                    == self@.guild_stage_instances[guild_id@] && v@.len()
                    == self@.guild_stage_instances[guild_id@].len(),
                None => !self@.guild_stage_instances.dom().contains(guild_id@),
            },
    {
        match self.guild_stage_instances.get(guild_id.get()) {
            Some(set) => {
                let ids = set.to_vec();
                proof {
                    set.lemma_seq_view();
                    ids@.unique_seq_to_set();
                }
                let mut out: Vec<StageId> = Vec::new();
                let n = ids.len();
                for i in 0..n
                    invariant
                        n == ids@.len(),
                        out@.len() == i,
                        forall|j: int| 0 <= j < i ==> (#[trigger] out@[j])@ == ids@[j],
                {
                    out.push(StageId::from_raw(ids[i]));
                }
                proof {
                    assert(crate::util::id_seq_view(out@) =~= ids@);
                }
                Some(out)
            },
            None => None,
        }
    }

    /// Gets the ids of a guild's integrations.
    pub fn guild_integrations(&self, guild_id: GuildId) -> (r: Option<Vec<IntegrationId>>)
        requires
            self.inv(),
        ensures
            match r {
                Some(v) => self@.guild_integrations.dom().contains(guild_id@)
                    && crate::util::id_seq_view(v@).to_set() == self@.guild_integrations[guild_id@]
                    && v@.len() == self@.guild_integrations[guild_id@].len(),
                None => !self@.guild_integrations.dom().contains(guild_id@),
            },
    {
        match self.guild_integrations.get(guild_id.get()) {
            Some(set) => {
                let ids = set.to_vec();
                proof {
                    set.lemma_seq_view();
                    ids@.unique_seq_to_set();
                }
                let mut out: Vec<IntegrationId> = Vec::new();
                let n = ids.len();
                for i in 0..n
                    invariant
                        n == ids@.len(),
                        out@.len() == i,
                        forall|j: int| 0 <= j < i ==> (#[trigger] out@[j])@ == ids@[j],
                {
                    out.push(IntegrationId::from_raw(ids[i]));
                }
                proof {
                    assert(crate::util::id_seq_view(out@) =~= ids@);
                }
                Some(out)
            },
            None => None,
        }
    }

    /// Gets the voice states of the users connected to a voice channel: one
    /// state per (guild, user) pair of the channel's set, without repetition.
    pub fn voice_channel_states(&self, channel_id: ChannelId) -> (r: Option<Vec<VoiceState>>)
        requires
            self.inv(),
        ensures
            match r {
                Some(v) => {
                    &&& self@.voice_state_channels.dom().contains(channel_id@)
                    &&& v@.len() == self@.voice_state_channels[channel_id@].len()
                    &&& forall|j: int|
                        0 <= j < v@.len() ==> {
                            &&& self@.voice_state_channels[channel_id@].contains(
                                ((#[trigger] v@[j])@.guild_id->0, v@[j]@.user_id),
                            )
                            &&& self@.voice_states.dom().contains(
                                (v@[j]@.guild_id->0, v@[j]@.user_id),
                            )
                            &&& v@[j]@ == self@.voice_states[(v@[j]@.guild_id->0, v@[j]@.user_id)]
                        }
                    &&& forall|j1: int, j2: int|
                        0 <= j1 < j2 < v@.len() ==> ((#[trigger] v@[j1])@.guild_id->0,
                        v@[j1]@.user_id) != ((#[trigger] v@[j2])@.guild_id->0, v@[j2]@.user_id)
                },
                None => !self@.voice_state_channels.dom().contains(channel_id@),
            },
    {
        let set = match self.voice_state_channels.get(channel_id.get()) {
            Some(s) => s,
            None => {
                return None;
            },
        };
        let ghost sv = self@.voice_state_channels[channel_id@];
        proof {
            set.lemma_seq_view();
        }
        let mut out: Vec<VoiceState> = Vec::new();
        let n = set.len();
        for i in 0..n
            invariant
                self.inv(),
                n == set.seq().len(),
                sv == set@,
                sv == self@.voice_state_channels[channel_id@],
                self@.voice_state_channels.dom().contains(channel_id@),
                out@.len() == i,
                set.seq().no_duplicates(),
                forall|j: int|
                    0 <= j < i ==> {
                        &&& sv.contains(((#[trigger] out@[j])@.guild_id->0, out@[j]@.user_id))
                        &&& self@.voice_states.dom().contains(
                            (out@[j]@.guild_id->0, out@[j]@.user_id),
                        )
                        &&& out@[j]@ == self@.voice_states[(out@[j]@.guild_id->0, out@[j]@.user_id)]
                        &&& ((#[trigger] out@[j])@.guild_id->0, out@[j]@.user_id) == set.seq()[j]
                    },
        {
            let pair = set.at(i);
            let vs = match self.voice_states.get(pair) {
                Some(v) => v,
                None => {
                    proof {
                        assert(false);
                    }
                    return None;
                },
            };
            proof {
                assert(pair == (pair.0, pair.1));
                assert(self@.voice_states[pair] == vs@);
                assert(vs@.guild_id == Some(pair.0) && vs@.user_id == pair.1);
            }
            out.push(vs.clone());
        }
        Some(out)
    }
}

} // verus!
