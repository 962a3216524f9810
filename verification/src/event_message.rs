//! Handlers for the per-channel message window: pushing with FIFO eviction,
//! partial updates, deletions, and reaction bookkeeping.

use vstd::prelude::*;
use crate::cache::CacheView;
use crate::cache::InMemoryCache;
use crate::cache::cache_inv;
use crate::cache::lemma_window_first;
use crate::cache::window_first;
use crate::cache::window_has;
use crate::config::RESOURCE_MESSAGE;
use crate::config::RESOURCE_REACTION;
use crate::gateway::Message;
use crate::id::ChannelId;
use crate::id::MessageId;
use crate::model::CachedMessage;
use crate::model::CachedMessageView;
use crate::model::Reaction;
use crate::model::ReactionView;
use crate::model::reactions_view;
use crate::util::clone_opt_string;
use crate::util::opt_string_view;

verus! {

/// The window of a channel, empty when the channel has none yet.
pub open spec fn window_at(m: Map<u64, Seq<CachedMessageView>>, ch: u64) -> Seq<CachedMessageView> {
    if m.dom().contains(ch) {
        m[ch]
    } else {
        Seq::empty()
    }
}

/// The cached record that a message payload produces; reactions start empty.
pub open spec fn message_view_of(msg: Message) -> CachedMessageView {
    CachedMessageView {
        author: msg.author.id@,
        channel_id: msg.channel_id@,
        content: msg.content@,
        guild_id: match msg.guild_id {
            Some(g) => Some(g@),
            None => None,
        },
        id: msg.id@,
        pinned: msg.pinned,
        reactions: Seq::empty(),
        timestamp: opt_string_view(msg.timestamp),
    }
}

/// The cache after a new message: appended to its channel's window, evicting
/// the oldest entry when the window is full. A capacity of zero disables the
/// window entirely.
pub open spec fn spec_cache_message(s: CacheView, msg: Message) -> CacheView {
    if !s.wants(RESOURCE_MESSAGE) || s.message_cache_size == 0 {
        s
    } else {
        let w = window_at(s.messages, msg.channel_id@);
        let w1 = if w.len() >= s.message_cache_size {
            w.drop_first().push(message_view_of(msg))
        } else {
            w.push(message_view_of(msg))
        };
        CacheView { messages: s.messages.insert(msg.channel_id@, w1), ..s }
    }
}

/// A window after deleting the first message with the given id, if any.
pub open spec fn spec_window_delete(w: Seq<CachedMessageView>, id: u64) -> Seq<CachedMessageView> {
    if window_has(w, id) {
        w.remove(window_first(w, id))
    } else {
        w
    }
}

/// A window after deleting the listed ids, in order.
pub open spec fn spec_window_delete_bulk(w: Seq<CachedMessageView>, ids: Seq<u64>) -> Seq<
    CachedMessageView,
>
    decreases ids.len(),
{
    if ids.len() == 0 {
        w
    } else {
        spec_window_delete_bulk(spec_window_delete(w, ids[0]), ids.drop_first())
    }
}

/// The cache after a message deletion; an id outside the window is ignored.
pub open spec fn spec_message_delete(s: CacheView, ch: u64, id: u64) -> CacheView {
    if !s.wants(RESOURCE_MESSAGE) || !s.messages.dom().contains(ch) {
        s
    } else {
        CacheView { messages: s.messages.insert(ch, spec_window_delete(s.messages[ch], id)), ..s }
    }
}

/// The cache after a bulk deletion: the single deletions applied in order.
pub open spec fn spec_message_delete_bulk(s: CacheView, ch: u64, ids: Seq<u64>) -> CacheView {
    if !s.wants(RESOURCE_MESSAGE) || !s.messages.dom().contains(ch) {
        s
    } else {
        CacheView {
            messages: s.messages.insert(ch, spec_window_delete_bulk(s.messages[ch], ids)),
            ..s
        }
    }
}

/// A window never grows under bulk deletion, and its messages keep their
/// channel.
proof fn lemma_window_delete_bulk_bounded(w: Seq<CachedMessageView>, ids: Seq<u64>, ch: u64)
    requires
        forall|i: int| 0 <= i < w.len() ==> (#[trigger] w[i]).channel_id == ch,
    ensures
        spec_window_delete_bulk(w, ids).len() <= w.len(),
        forall|i: int|
            0 <= i < spec_window_delete_bulk(w, ids).len() ==> (#[trigger] spec_window_delete_bulk(
                w,
                ids,
            )[i]).channel_id == ch,
    decreases ids.len(),
{
    if ids.len() != 0 {
        let w1 = spec_window_delete(w, ids[0]);
        if window_has(w, ids[0]) {
            lemma_window_first(w, ids[0]);
            let f = window_first(w, ids[0]);
            assert forall|i: int| 0 <= i < w1.len() implies (#[trigger] w1[i]).channel_id
                == ch by {
                if i < f {
                    assert(w1[i] == w[i]);
                } else {
                    assert(w1[i] == w[i + 1]);
                }
            }
        }
        lemma_window_delete_bulk_bounded(w1, ids.drop_first(), ch);
    }
}

/// The cache after a partial message update: present fields replace the
/// stored ones, absent fields leave them untouched; an unknown message is
/// ignored.
pub open spec fn spec_message_update(
    s: CacheView,
    ch: u64,
    id: u64,
    content: Option<Seq<char>>,
    pinned: Option<bool>,
) -> CacheView {
    if !s.wants(RESOURCE_MESSAGE) || !s.messages.dom().contains(ch) {
        s
    } else {
        let w = s.messages[ch];
        if window_has(w, id) {
            let f = window_first(w, id);
            let m = w[f];
            let merged = CachedMessageView {
                content: match content {
                    Some(ct) => ct,
                    None => m.content,
                },
                pinned: match pinned {
                    Some(p) => p,
                    None => m.pinned,
                },
                ..m
            };
            CacheView { messages: s.messages.insert(ch, w.update(f, merged)), ..s }
        } else {
            s
        }
    }
}

/// Whether a reaction tally for the emoji is present.
pub open spec fn reaction_has(rs: Seq<ReactionView>, emoji: Seq<char>) -> bool {
    exists|j: int| 0 <= j < rs.len() && rs[j].emoji == emoji
}

/// The position of the first tally for the emoji; meaningful only when
/// [`reaction_has`] holds.
pub open spec fn reaction_first(rs: Seq<ReactionView>, emoji: Seq<char>) -> int {
    choose|j: int|
        0 <= j < rs.len() && rs[j].emoji == emoji && (forall|k: int|
            0 <= k < j ==> rs[k].emoji != emoji)
}

proof fn lemma_reaction_min_witness(rs: Seq<ReactionView>, emoji: Seq<char>, k: int)
    requires
        0 <= k < rs.len(),
        rs[k].emoji == emoji,
    ensures
        exists|j: int|
            0 <= j < rs.len() && rs[j].emoji == emoji && (forall|k2: int|
                0 <= k2 < j ==> rs[k2].emoji != emoji),
    decreases k,
{
    if forall|k2: int| 0 <= k2 < k ==> rs[k2].emoji != emoji {
    } else {
        let j = choose|j: int| 0 <= j < k && rs[j].emoji == emoji;
        lemma_reaction_min_witness(rs, emoji, j);
    }
}

/// When a tally for the emoji is present, `reaction_first` is the first
/// position holding one.
pub proof fn lemma_reaction_first(rs: Seq<ReactionView>, emoji: Seq<char>)
    requires
        reaction_has(rs, emoji),
    ensures
        0 <= reaction_first(rs, emoji) < rs.len(),
        rs[reaction_first(rs, emoji)].emoji == emoji,
        forall|k: int| 0 <= k < reaction_first(rs, emoji) ==> rs[k].emoji != emoji,
{
    let k = choose|j: int| 0 <= j < rs.len() && rs[j].emoji == emoji;
    lemma_reaction_min_witness(rs, emoji, k);
}

/// A count one higher, capped at the maximum.
pub open spec fn bump_count(c: u64) -> u64 {
    if c == u64::MAX {
        c
    } else {
        (c + 1) as u64
    }
}

/// The reactions of a message after one reaction with the emoji arrived.
pub open spec fn spec_reactions_add(rs: Seq<ReactionView>, emoji: Seq<char>) -> Seq<ReactionView> {
    if reaction_has(rs, emoji) {
        let j = reaction_first(rs, emoji);
        rs.update(j, ReactionView { count: bump_count(rs[j].count), ..rs[j] })
    } else {
        rs.push(ReactionView { count: 1, emoji, me: false })
    }
}

/// The reactions of a message after one reaction with the emoji was removed.
pub open spec fn spec_reactions_remove(rs: Seq<ReactionView>, emoji: Seq<char>) -> Seq<
    ReactionView,
> {
    if reaction_has(rs, emoji) {
        let j = reaction_first(rs, emoji);
        if rs[j].count <= 1 {
            rs.remove(j)
        } else {
            rs.update(j, ReactionView { count: (rs[j].count - 1) as u64, ..rs[j] })
        }
    } else {
        rs
    }
}

/// The cache after the reactions of one message changed to `f(reactions)`;
/// shared shape of the four reaction events.
pub open spec fn spec_with_reactions(
    s: CacheView,
    ch: u64,
    id: u64,
    rs1: Seq<ReactionView>,
) -> CacheView {
    let w = s.messages[ch];
    let f = window_first(w, id);
    let m = w[f];
    CacheView {
        messages: s.messages.insert(ch, w.update(f, CachedMessageView { reactions: rs1, ..m })),
        ..s
    }
}

/// The cache after a reaction was added to a message.
pub open spec fn spec_reaction_add(s: CacheView, ch: u64, id: u64, emoji: Seq<char>) -> CacheView {
    if !s.wants(RESOURCE_REACTION) || !s.messages.dom().contains(ch) || !window_has(
        s.messages[ch],
        id,
    ) {
        s
    } else {
        let m = s.messages[ch][window_first(s.messages[ch], id)];
        spec_with_reactions(s, ch, id, spec_reactions_add(m.reactions, emoji))
    }
}

/// The cache after a reaction was removed from a message.
pub open spec fn spec_reaction_remove(s: CacheView, ch: u64, id: u64, emoji: Seq<char>) -> CacheView {
    if !s.wants(RESOURCE_REACTION) || !s.messages.dom().contains(ch) || !window_has(
        s.messages[ch],
        id,
    ) {
        s
    } else {
        let m = s.messages[ch][window_first(s.messages[ch], id)];
        spec_with_reactions(s, ch, id, spec_reactions_remove(m.reactions, emoji))
    }
}

/// The cache after all reactions were removed from a message.
pub open spec fn spec_reaction_remove_all(s: CacheView, ch: u64, id: u64) -> CacheView {
    if !s.wants(RESOURCE_REACTION) || !s.messages.dom().contains(ch) || !window_has(
        s.messages[ch],
        id,
    ) {
        s
    } else {
        spec_with_reactions(s, ch, id, Seq::empty())
    }
}

/// The cache after all reactions with one emoji were removed from a message.
pub open spec fn spec_reaction_remove_emoji(
    s: CacheView,
    ch: u64,
    id: u64,
    emoji: Seq<char>,
) -> CacheView {
    if !s.wants(RESOURCE_REACTION) || !s.messages.dom().contains(ch) || !window_has(
        s.messages[ch],
        id,
    ) {
        s
    } else {
        let m = s.messages[ch][window_first(s.messages[ch], id)];
        if reaction_has(m.reactions, emoji) {
            spec_with_reactions(s, ch, id, m.reactions.remove(reaction_first(m.reactions, emoji)))
        } else {
            s
        }
    }
}

/// Replacing one message's fields other than channel and id, or any
/// reshaping of a window that keeps its length and channel ids, preserves
/// the cache invariant.
proof fn lemma_inv_window_update(s: CacheView, ch: u64, w1: Seq<CachedMessageView>)
    requires
        cache_inv(s),
        s.wants(RESOURCE_MESSAGE) || s.wants(RESOURCE_REACTION),
        s.messages.dom().contains(ch) || s.wants(RESOURCE_MESSAGE),
        w1.len() <= s.message_cache_size,
        forall|i: int| 0 <= i < w1.len() ==> (#[trigger] w1[i]).channel_id == ch,
    ensures
        cache_inv(CacheView { messages: s.messages.insert(ch, w1), ..s }),
{
    let t = CacheView { messages: s.messages.insert(ch, w1), ..s };
    assert forall|c2: u64| #[trigger] t.messages.dom().contains(c2) implies {
        &&& t.messages[c2].len() <= t.message_cache_size
        &&& forall|i: int| 0 <= i < t.messages[c2].len() ==> (#[trigger] t.messages[c2][i]).channel_id
            == c2
    } by {
        if c2 != ch {
            assert(s.messages.dom().contains(c2));
        }
    }
    if !s.wants(RESOURCE_MESSAGE) {
        assert(s.messages.dom().contains(ch));
    }
}

impl InMemoryCache {
    fn find_in_window(window: &Vec<CachedMessage>, id: u64) -> (r: Option<usize>)
        ensures
            match r {
                Some(i) => i < window@.len() && window@[i as int]@.id == id && forall|j: int|
                    0 <= j < i ==> (#[trigger] window@[j])@.id != id,
                None => forall|j: int|
                    0 <= j < window@.len() ==> (#[trigger] window@[j])@.id != id,
            },
    {
        let n = window.len();
        for i in 0..n
            invariant
                n == window@.len(),
                forall|j: int| 0 <= j < i ==> (#[trigger] window@[j])@.id != id,
        {
            if window[i].id.get() == id {
                return Some(i);
            }
        }
        None
    }

    /// Appends a new message to its channel's window, evicting the oldest
    /// entry when the window is full. With the message category disabled or
    /// a zero capacity this is a no-op.
    pub fn cache_message(&mut self, msg: &Message)
        requires
            old(self).inv(),
        ensures
            final(self).inv(),
            final(self)@ == spec_cache_message(old(self)@, *msg),
    {
        if !self.wants(RESOURCE_MESSAGE) {
            return ;
        }
        let cap = self.config.message_cache_size;
        if cap == 0 {
            return ;
        }
        let ch = msg.channel_id.get();
        let built = CachedMessage {
            author: msg.author.id,
            channel_id: msg.channel_id,
            content: msg.content.clone(),
            guild_id: msg.guild_id,
            id: msg.id,
            pinned: msg.pinned,
            reactions: Vec::new(),
            timestamp: clone_opt_string(&msg.timestamp),
        };
        proof {
            assert(built@ =~= message_view_of(*msg));
        }
        let ghost w = crate::event_message::window_at(old(self)@.messages, msg.channel_id@);
        let mut window = match self.messages.remove(ch) {
            Some(v) => v,
            None => Vec::new(),
        };
        proof {
            assert(w =~= window@.map_values(|m: CachedMessage| m@));
        }
        if window.len() >= cap {
            let ghost before = window@;
            window.remove(0);
            proof {
                assert(window@.map_values(|m: CachedMessage| m@) =~= w.drop_first());
            }
        }
        window.push(built);
        self.messages.insert(ch, window);
        proof {
            let w1 = if w.len() >= old(self)@.message_cache_size {
                w.drop_first().push(message_view_of(*msg))
            } else {
                w.push(message_view_of(*msg))
            };
            assert(window@.map_values(|m: CachedMessage| m@) =~= w1);
            assert(self@ =~= spec_cache_message(old(self)@, *msg));
            lemma_inv_window_update(old(self)@, msg.channel_id@, w1);
        }
    }

    /// Removes a deleted message from its channel's window; an id outside
    /// the window is ignored.
    pub fn message_delete(&mut self, channel_id: ChannelId, message_id: MessageId)
        requires
            old(self).inv(),
        ensures
            final(self).inv(),
            final(self)@ == spec_message_delete(old(self)@, channel_id@, message_id@),
    {
        if !self.wants(RESOURCE_MESSAGE) {
            return ;
        }
        let ch = channel_id.get();
        let mut window = match self.messages.remove(ch) {
            Some(v) => v,
            None => {
                proof {
                    assert(self@ =~= spec_message_delete(old(self)@, channel_id@, message_id@));
                }
                return ;
            },
        };
        let ghost w = old(self)@.messages[channel_id@];
        proof {
            assert(w =~= window@.map_values(|m: CachedMessage| m@));
        }
        match Self::find_in_window(&window, message_id.get()) {
            Some(i) => {
                proof {
                    assert(w[i as int].id == message_id@);
                    lemma_window_first(w, message_id@);
                    let f = window_first(w, message_id@);
                    if f < i as int {
                        assert(window@[f]@.id != message_id@);
                        assert(w[f] == window@[f]@);
                    }
                    if f > i as int {
                        assert(w[i as int].id != message_id@);
                    }
                    assert(f == i as int);
                }
                window.remove(i);
                self.messages.insert(ch, window);
                proof {
                    assert(window@.map_values(|m: CachedMessage| m@) =~= w.remove(i as int));
                    assert(spec_window_delete(w, message_id@) == w.remove(i as int));
                    assert(self@ =~= spec_message_delete(old(self)@, channel_id@, message_id@));
                    lemma_inv_window_update(old(self)@, channel_id@, w.remove(i as int));
                }
            },
            None => {
                self.messages.insert(ch, window);
                proof {
                    assert forall|j: int| 0 <= j < w.len() implies w[j].id != message_id@ by {
                        assert(w[j] == window@[j]@);
                    }
                    assert(spec_window_delete(w, message_id@) == w);
                    assert(self@.messages =~= old(self)@.messages.insert(channel_id@, w));
                    assert(self@ =~= spec_message_delete(old(self)@, channel_id@, message_id@));
                }
            },
        }
    }

    /// Removes several deleted messages of one channel, in order; ids
    /// outside the window are ignored.
    pub fn message_delete_bulk(&mut self, channel_id: ChannelId, ids: &Vec<MessageId>)
        requires
            old(self).inv(),
        ensures
            final(self).inv(),
            final(self)@ == spec_message_delete_bulk(
                old(self)@,
                channel_id@,
                crate::util::id_seq_view(ids@),
            ),
    {
        let ghost all = crate::util::id_seq_view(ids@);
        if !self.wants(RESOURCE_MESSAGE) {
            return ;
        }
        let ch = channel_id.get();
        let mut window = match self.messages.remove(ch) {
            Some(v) => v,
            None => {
                proof {
                    assert(self@ =~= spec_message_delete_bulk(old(self)@, channel_id@, all));
                }
                return ;
            },
        };
        let ghost w0 = old(self)@.messages[channel_id@];
        proof {
            assert(w0 =~= window@.map_values(|m: CachedMessage| m@));
            assert(all.skip(0) =~= all);
        }
        let n = ids.len();
        for i in 0..n
            invariant
                n == ids@.len(),
                all == crate::util::id_seq_view(ids@),
                spec_window_delete_bulk(
                    window@.map_values(|m: CachedMessage| m@),
                    all.skip(i as int),
                ) == spec_window_delete_bulk(w0, all),
        {
            let ghost wv = window@.map_values(|m: CachedMessage| m@);
            let id = ids[i].get();
            match Self::find_in_window(&window, id) {
                Some(k) => {
                    proof {
                        assert(wv[k as int].id == id);
                        lemma_window_first(wv, id);
                        let f = window_first(wv, id);
                        if f < k as int {
                            assert(wv[f] == window@[f]@);
                        }
                        if f > k as int {
                            assert(wv[k as int].id != id);
                        }
                        assert(f == k as int);
                    }
                    window.remove(k);
                    proof {
                        assert(window@.map_values(|m: CachedMessage| m@) =~= wv.remove(k as int));
                        assert(spec_window_delete(wv, id) == wv.remove(k as int));
                        assert(all.skip(i as int).drop_first() =~= all.skip(i + 1));
                        assert(all.skip(i as int)[0] == id);
                    }
                },
                None => {
                    proof {
                        assert forall|j: int| 0 <= j < wv.len() implies wv[j].id != id by {
                            assert(wv[j] == window@[j]@);
                        }
                        assert(spec_window_delete(wv, id) == wv);
                        assert(all.skip(i as int).drop_first() =~= all.skip(i + 1));
                        assert(all.skip(i as int)[0] == id);
                    }
                },
            }
        }
        self.messages.insert(ch, window);
        proof {
            assert(all.skip(n as int) =~= Seq::<u64>::empty());
            let wfin = spec_window_delete_bulk(w0, all);
            assert(window@.map_values(|m: CachedMessage| m@) == wfin);
            assert(self@ =~= spec_message_delete_bulk(old(self)@, channel_id@, all));
            lemma_window_delete_bulk_bounded(w0, all, channel_id@);
            lemma_inv_window_update(old(self)@, channel_id@, wfin);
        }
    }

    /// Merges a partial update into a cached message; an unknown message is
    /// ignored, never fabricated.
    pub fn message_update(
        &mut self,
        channel_id: ChannelId,
        message_id: MessageId,
        content: &Option<String>,
        pinned: Option<bool>,
    )
        requires
            old(self).inv(),
        ensures
            final(self).inv(),
            final(self)@ == spec_message_update(
                old(self)@,
                channel_id@,
                message_id@,
                opt_string_view(*content),
                pinned,
            ),
    {
        if !self.wants(RESOURCE_MESSAGE) {
            return ;
        }
        let ch = channel_id.get();
        let mut window = match self.messages.remove(ch) {
            Some(v) => v,
            None => {
                proof {
                    assert(self@ =~= spec_message_update(
                        old(self)@,
                        channel_id@,
                        message_id@,
                        opt_string_view(*content),
                        pinned,
                    ));
                }
                return ;
            },
        };
        let ghost w = old(self)@.messages[channel_id@];
        proof {
            assert(w =~= window@.map_values(|m: CachedMessage| m@));
        }
        match Self::find_in_window(&window, message_id.get()) {
            Some(i) => {
                proof {
                    assert(w[i as int].id == message_id@);
                    lemma_window_first(w, message_id@);
                    let f = window_first(w, message_id@);
                    if f < i as int {
                        assert(w[f] == window@[f]@);
                    }
                    if f > i as int {
                        assert(w[i as int].id != message_id@);
                    }
                    assert(f == i as int);
                }
                let mut msg = window[i].clone();
                match content {
                    Some(ct) => {
                        msg.content = ct.clone();
                    },
                    None => {},
                }
                match pinned {
                    Some(p) => {
                        msg.pinned = p;
                    },
                    None => {},
                }
                let ghost merged = CachedMessageView {
                    content: match opt_string_view(*content) {
                        Some(ct) => ct,
                        None => w[i as int].content,
                    },
                    pinned: match pinned {
                        Some(p) => p,
                        None => w[i as int].pinned,
                    },
                    ..w[i as int]
                };
                proof {
                    assert(msg@ =~= merged);
                }
                window.set(i, msg);
                self.messages.insert(ch, window);
                proof {
                    assert(window@.map_values(|m: CachedMessage| m@) =~= w.update(i as int, merged));
                    assert(self@ =~= spec_message_update(
                        old(self)@,
                        channel_id@,
                        message_id@,
                        opt_string_view(*content),
                        pinned,
                    ));
                    lemma_inv_window_update(old(self)@, channel_id@, w.update(i as int, merged));
                }
            },
            None => {
                self.messages.insert(ch, window);
                proof {
                    assert forall|j: int| 0 <= j < w.len() implies w[j].id != message_id@ by {
                        assert(w[j] == window@[j]@);
                    }
                    assert(self@.messages =~= old(self)@.messages);
                    assert(self@ =~= spec_message_update(
                        old(self)@,
                        channel_id@,
                        message_id@,
                        opt_string_view(*content),
                        pinned,
                    ));
                }
            },
        }
    }
}


impl InMemoryCache {
    fn find_reaction(rs: &Vec<Reaction>, emoji: &String) -> (r: Option<usize>)
        ensures
            match r {
                Some(j) => j < rs@.len() && rs@[j as int]@.emoji == emoji@ && forall|k: int|
                    0 <= k < j ==> (#[trigger] rs@[k])@.emoji != emoji@,
                None => forall|k: int| 0 <= k < rs@.len() ==> (#[trigger] rs@[k])@.emoji != emoji@,
            },
    {
        let n = rs.len();
        for j in 0..n
            invariant
                n == rs@.len(),
                forall|k: int| 0 <= k < j ==> (#[trigger] rs@[k])@.emoji != emoji@,
        {
            if rs[j].emoji == *emoji {
                return Some(j);
            }
        }
        None
    }

    /// Records one added reaction on a cached message: an existing tally for
    /// the emoji is incremented, otherwise a new tally starts at one. A
    /// message outside the window is ignored.
    pub fn reaction_add(&mut self, channel_id: ChannelId, message_id: MessageId, emoji: &String)
        requires
            old(self).inv(),
        ensures
            final(self).inv(),
            final(self)@ == spec_reaction_add(old(self)@, channel_id@, message_id@, emoji@),
    {
        if !self.wants(RESOURCE_REACTION) {
            return ;
        }
        let ch = channel_id.get();
        let mut window = match self.messages.remove(ch) {
            Some(v) => v,
            None => {
                proof {
                    assert(self@ =~= old(self)@);
                }
                return ;
            },
        };
        let ghost w = old(self)@.messages[channel_id@];
        proof {
            assert(w =~= window@.map_values(|m: CachedMessage| m@));
        }
        match Self::find_in_window(&window, message_id.get()) {
            Some(i) => {
                proof {
                    assert(w[i as int].id == message_id@);
                    lemma_window_first(w, message_id@);
                    let f = window_first(w, message_id@);
                    if f < i as int {
                        assert(w[f] == window@[f]@);
                    }
                    if f > i as int {
                        assert(w[i as int].id != message_id@);
                    }
                    assert(f == i as int);
                }
                let mut msg = window[i].clone();
                let ghost rs = w[i as int].reactions;
                proof {
                    assert(reactions_view(msg.reactions@) == rs);
                }
                match Self::find_reaction(&msg.reactions, emoji) {
                    Some(j) => {
                        proof {
                            assert(rs[j as int] == msg.reactions@[j as int]@);
                            assert(rs[j as int].emoji == emoji@);
                            lemma_reaction_first(rs, emoji@);
                            let rf = reaction_first(rs, emoji@);
                            if rf < j as int {
                                assert(rs[rf] == msg.reactions@[rf]@);
                            }
                            if rf > j as int {
                                assert(rs[j as int].emoji != emoji@);
                            }
                            assert(rf == j as int);
                        }
                        let mut tally = msg.reactions[j].clone();
                        if tally.count < u64::MAX {
                            tally.count = tally.count + 1;
                        }
                        proof {
                            assert(tally@ =~= ReactionView {
                                count: bump_count(rs[j as int].count),
                                ..rs[j as int]
                            });
                        }
                        msg.reactions.set(j, tally);
                        proof {
                            assert(reactions_view(msg.reactions@) =~= spec_reactions_add(
                                rs,
                                emoji@,
                            ));
                        }
                    },
                    None => {
                        proof {
                            assert forall|k: int| 0 <= k < rs.len() implies rs[k].emoji
                                != emoji@ by {
                                assert(rs[k] == msg.reactions@[k]@);
                            }
                        }
                        msg.reactions.push(Reaction { count: 1, emoji: emoji.clone(), me: false });
                        proof {
                            assert(reactions_view(msg.reactions@) =~= spec_reactions_add(
                                rs,
                                emoji@,
                            ));
                        }
                    },
                }
                let ghost merged = CachedMessageView {
                    reactions: spec_reactions_add(rs, emoji@),
                    ..w[i as int]
                };
                proof {
                    assert(msg@ =~= merged);
                }
                window.set(i, msg);
                self.messages.insert(ch, window);
                proof {
                    assert(window@.map_values(|m: CachedMessage| m@) =~= w.update(i as int, merged));
                    assert(self@ =~= spec_reaction_add(old(self)@, channel_id@, message_id@, emoji@));
                    lemma_inv_window_update(old(self)@, channel_id@, w.update(i as int, merged));
                }
            },
            None => {
                self.messages.insert(ch, window);
                proof {
                    assert forall|j: int| 0 <= j < w.len() implies w[j].id != message_id@ by {
                        assert(w[j] == window@[j]@);
                    }
                    assert(self@.messages =~= old(self)@.messages);
                    assert(self@ =~= old(self)@);
                }
            },
        }
    }

    /// Records one removed reaction on a cached message: the tally for the
    /// emoji is decremented and dropped at zero. A message outside the window
    /// or an unknown emoji is ignored.
    pub fn reaction_remove(&mut self, channel_id: ChannelId, message_id: MessageId, emoji: &String)
        requires
            old(self).inv(),
        ensures
            final(self).inv(),
            final(self)@ == spec_reaction_remove(old(self)@, channel_id@, message_id@, emoji@),
    {
        if !self.wants(RESOURCE_REACTION) {
            return ;
        }
        let ch = channel_id.get();
        let mut window = match self.messages.remove(ch) {
            Some(v) => v,
            None => {
                proof {
                    assert(self@ =~= old(self)@);
                }
                return ;
            },
        };
        let ghost w = old(self)@.messages[channel_id@];
        proof {
            assert(w =~= window@.map_values(|m: CachedMessage| m@));
        }
        match Self::find_in_window(&window, message_id.get()) {
            Some(i) => {
                proof {
                    assert(w[i as int].id == message_id@);
                    lemma_window_first(w, message_id@);
                    let f = window_first(w, message_id@);
                    if f < i as int {
                        assert(w[f] == window@[f]@);
                    }
                    if f > i as int {
                        assert(w[i as int].id != message_id@);
                    }
                    assert(f == i as int);
                }
                let mut msg = window[i].clone();
                let ghost rs = w[i as int].reactions;
                proof {
                    assert(reactions_view(msg.reactions@) == rs);
                }
                match Self::find_reaction(&msg.reactions, emoji) {
                    Some(j) => {
                        proof {
                            assert(rs[j as int] == msg.reactions@[j as int]@);
                            assert(rs[j as int].emoji == emoji@);
                            lemma_reaction_first(rs, emoji@);
                            let rf = reaction_first(rs, emoji@);
                            if rf < j as int {
                                assert(rs[rf] == msg.reactions@[rf]@);
                            }
                            if rf > j as int {
                                assert(rs[j as int].emoji != emoji@);
                            }
                            assert(rf == j as int);
                        }
                        if msg.reactions[j].count <= 1 {
                            msg.reactions.remove(j);
                            proof {
                                assert(reactions_view(msg.reactions@) =~= rs.remove(j as int));
                                assert(reactions_view(msg.reactions@) =~= spec_reactions_remove(
                                    rs,
                                    emoji@,
                                ));
                            }
                        } else {
                            let mut tally = msg.reactions[j].clone();
                            tally.count = tally.count - 1;
                            proof {
                                assert(tally@ =~= ReactionView {
                                    count: (rs[j as int].count - 1) as u64,
                                    ..rs[j as int]
                                });
                            }
                            msg.reactions.set(j, tally);
                            proof {
                                assert(reactions_view(msg.reactions@) =~= spec_reactions_remove(
                                    rs,
                                    emoji@,
                                ));
                            }
                        }
                    },
                    None => {
                        proof {
                            assert forall|k: int| 0 <= k < rs.len() implies rs[k].emoji
                                != emoji@ by {
                                assert(rs[k] == msg.reactions@[k]@);
                            }
                            assert(reactions_view(msg.reactions@) =~= spec_reactions_remove(
                                rs,
                                emoji@,
                            ));
                        }
                    },
                }
                let ghost merged = CachedMessageView {
                    reactions: spec_reactions_remove(rs, emoji@),
                    ..w[i as int]
                };
                proof {
                    assert(msg@ =~= merged);
                }
                window.set(i, msg);
                self.messages.insert(ch, window);
                proof {
                    assert(window@.map_values(|m: CachedMessage| m@) =~= w.update(i as int, merged));
                    assert(self@ =~= spec_reaction_remove(
                        old(self)@,
                        channel_id@,
                        message_id@,
                        emoji@,
                    ));
                    lemma_inv_window_update(old(self)@, channel_id@, w.update(i as int, merged));
                }
            },
            None => {
                self.messages.insert(ch, window);
                proof {
                    assert forall|j: int| 0 <= j < w.len() implies w[j].id != message_id@ by {
                        assert(w[j] == window@[j]@);
                    }
                    assert(self@.messages =~= old(self)@.messages);
                    assert(self@ =~= old(self)@);
                }
            },
        }
    }

    /// Clears every reaction of a cached message. A message outside the
    /// window is ignored.
    pub fn reaction_remove_all(&mut self, channel_id: ChannelId, message_id: MessageId)
        requires
            old(self).inv(),
        ensures
            final(self).inv(),
            final(self)@ == spec_reaction_remove_all(old(self)@, channel_id@, message_id@),
    {
        if !self.wants(RESOURCE_REACTION) {
            return ;
        }
        let ch = channel_id.get();
        let mut window = match self.messages.remove(ch) {
            Some(v) => v,
            None => {
                proof {
                    assert(self@ =~= old(self)@);
                }
                return ;
            },
        };
        let ghost w = old(self)@.messages[channel_id@];
        proof {
            assert(w =~= window@.map_values(|m: CachedMessage| m@));
        }
        match Self::find_in_window(&window, message_id.get()) {
            Some(i) => {
                proof {
                    assert(w[i as int].id == message_id@);
                    lemma_window_first(w, message_id@);
                    let f = window_first(w, message_id@);
                    if f < i as int {
                        assert(w[f] == window@[f]@);
                    }
                    if f > i as int {
                        assert(w[i as int].id != message_id@);
                    }
                    assert(f == i as int);
                }
                let mut msg = window[i].clone();
                msg.reactions = Vec::new();
                let ghost merged = CachedMessageView { reactions: Seq::empty(), ..w[i as int] };
                proof {
                    assert(reactions_view(msg.reactions@) =~= Seq::<ReactionView>::empty());
                    assert(msg@ =~= merged);
                }
                window.set(i, msg);
                self.messages.insert(ch, window);
                proof {
                    assert(window@.map_values(|m: CachedMessage| m@) =~= w.update(i as int, merged));
                    assert(self@ =~= spec_reaction_remove_all(old(self)@, channel_id@, message_id@));
                    lemma_inv_window_update(old(self)@, channel_id@, w.update(i as int, merged));
                }
            },
            None => {
                self.messages.insert(ch, window);
                proof {
                    assert forall|j: int| 0 <= j < w.len() implies w[j].id != message_id@ by {
                        assert(w[j] == window@[j]@);
                    }
                    assert(self@.messages =~= old(self)@.messages);
                    assert(self@ =~= old(self)@);
                }
            },
        }
    }

    /// Drops the tally for one emoji from a cached message. A message outside
    /// the window or an unknown emoji is ignored.
    pub fn reaction_remove_emoji(
        &mut self,
        channel_id: ChannelId,
        message_id: MessageId,
        emoji: &String,
    )
        requires
            old(self).inv(),
        ensures
            final(self).inv(),
            final(self)@ == spec_reaction_remove_emoji(
                old(self)@,
                channel_id@,
                message_id@,
                emoji@,
            ),
    {
        if !self.wants(RESOURCE_REACTION) {
            return ;
        }
        let ch = channel_id.get();
        let mut window = match self.messages.remove(ch) {
            Some(v) => v,
            None => {
                proof {
                    assert(self@ =~= old(self)@);
                }
                return ;
            },
        };
        let ghost w = old(self)@.messages[channel_id@];
        proof {
            assert(w =~= window@.map_values(|m: CachedMessage| m@));
        }
        match Self::find_in_window(&window, message_id.get()) {
            Some(i) => {
                proof {
                    assert(w[i as int].id == message_id@);
                    lemma_window_first(w, message_id@);
                    let f = window_first(w, message_id@);
                    if f < i as int {
                        assert(w[f] == window@[f]@);
                    }
                    if f > i as int {
                        assert(w[i as int].id != message_id@);
                    }
                    assert(f == i as int);
                }
                let mut msg = window[i].clone();
                let ghost rs = w[i as int].reactions;
                proof {
                    assert(reactions_view(msg.reactions@) == rs);
                }
                match Self::find_reaction(&msg.reactions, emoji) {
                    Some(j) => {
                        proof {
                            assert(rs[j as int] == msg.reactions@[j as int]@);
                            assert(rs[j as int].emoji == emoji@);
                            lemma_reaction_first(rs, emoji@);
                            let rf = reaction_first(rs, emoji@);
                            if rf < j as int {
                                assert(rs[rf] == msg.reactions@[rf]@);
                            }
                            if rf > j as int {
                                assert(rs[j as int].emoji != emoji@);
                            }
                            assert(rf == j as int);
                        }
                        msg.reactions.remove(j);
                        let ghost merged = CachedMessageView {
                            reactions: rs.remove(reaction_first(rs, emoji@)),
                            ..w[i as int]
                        };
                        proof {
                            assert(reactions_view(msg.reactions@) =~= rs.remove(j as int));
                            assert(msg@ =~= merged);
                        }
                        window.set(i, msg);
                        self.messages.insert(ch, window);
                        proof {
                            assert(window@.map_values(|m: CachedMessage| m@) =~= w.update(
                                i as int,
                                merged,
                            ));
                            assert(self@ =~= spec_reaction_remove_emoji(
                                old(self)@,
                                channel_id@,
                                message_id@,
                                emoji@,
                            ));
                            lemma_inv_window_update(
                                old(self)@,
                                channel_id@,
                                w.update(i as int, merged),
                            );
                        }
                    },
                    None => {
                        self.messages.insert(ch, window);
                        proof {
                            assert forall|k: int| 0 <= k < rs.len() implies rs[k].emoji
                                != emoji@ by {
                                assert(rs[k] == msg.reactions@[k]@);
                            }
                            assert(self@.messages =~= old(self)@.messages);
                            assert(self@ =~= old(self)@);
                        }
                    },
                }
            },
            None => {
                self.messages.insert(ch, window);
                proof {
                    assert forall|j: int| 0 <= j < w.len() implies w[j].id != message_id@ by {
                        assert(w[j] == window@[j]@);
                    }
                    assert(self@.messages =~= old(self)@.messages);
                    assert(self@ =~= old(self)@);
                }
            },
        }
    }
}

} // verus!
