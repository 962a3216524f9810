//! Index maintenance: keeping the parent-to-children id sets synchronized
//! with the resource store, and the lemmas that carry the link invariant
//! across single insertions and removals.

use vstd::prelude::*;
use crate::cache::GuildItem;
use crate::cache::index_view;
use crate::cache::item_table_view;
use crate::cache::linked;
use crate::cache::linked_pair;
use crate::cache::pair_index_view;
use crate::id::GuildId;
use crate::store::IdMap;
use crate::store::IdSet;
use crate::store::PairMap;
use crate::store::PairSet;

verus! {

/// The child set of a parent, empty when the parent has no set yet.
pub open spec fn set_at(m: Map<u64, Set<u64>>, g: u64) -> Set<u64> {
    if m.dom().contains(g) {
        m[g]
    } else {
        Set::empty()
    }
}

/// The pair set of a parent, empty when the parent has no set yet.
pub open spec fn pair_set_at(m: Map<u64, Set<(u64, u64)>>, g: u64) -> Set<(u64, u64)> {
    if m.dom().contains(g) {
        m[g]
    } else {
        Set::empty()
    }
}

/// The index after inserting a child under a parent.
pub open spec fn index_with(m: Map<u64, Set<u64>>, g: u64, c: u64) -> Map<u64, Set<u64>> {
    m.insert(g, set_at(m, g).insert(c))
}

/// The index after removing a child from a parent; an emptied set is
/// retained.
pub open spec fn index_without(m: Map<u64, Set<u64>>, g: u64, c: u64) -> Map<u64, Set<u64>> {
    if m.dom().contains(g) {
        m.insert(g, m[g].remove(c))
    } else {
        m
    }
}

/// The pair index after inserting a pair under a key.
pub open spec fn pair_index_with(m: Map<u64, Set<(u64, u64)>>, c: u64, p: (u64, u64)) -> Map<
    u64,
    Set<(u64, u64)>,
> {
    m.insert(c, pair_set_at(m, c).insert(p))
}

/// The pair index after removing a pair from a key; an emptied set is
/// retained.
pub open spec fn pair_index_without(m: Map<u64, Set<(u64, u64)>>, c: u64, p: (u64, u64)) -> Map<
    u64,
    Set<(u64, u64)>,
> {
    if m.dom().contains(c) {
        m.insert(c, m[c].remove(p))
    } else {
        m
    }
}

/// The backing map of an index is well formed together with every set in it.
pub open spec fn index_wf(m: &IdMap<IdSet>) -> bool {
    &&& m.wf()
    &&& forall|g: u64| #[trigger] m@.dom().contains(g) ==> m@[g].wf()
}

/// The backing map of a pair index is well formed together with every set in
/// it.
pub open spec fn pair_index_wf(m: &IdMap<PairSet>) -> bool {
    &&& m.wf()
    &&& forall|g: u64| #[trigger] m@.dom().contains(g) ==> m@[g].wf()
}

/// Inserts a child id into a parent's set, creating the set if absent.
pub fn index_add(m: &mut IdMap<IdSet>, g: u64, c: u64)
    requires
        index_wf(old(m)),
    ensures
        index_wf(final(m)),
        index_view(final(m)@) == index_with(index_view(old(m)@), g, c),
{
    let mut set = match m.remove(g) {
        Some(s) => s,
        None => IdSet::new(),
    };
    set.insert(c);
    m.insert(g, set);
    proof {
        assert(index_view(m@) =~= index_with(index_view(old(m)@), g, c));
    }
}

/// Removes a child id from a parent's set, retaining the set even when it
/// becomes empty; no-op when the parent has no set.
pub fn index_del(m: &mut IdMap<IdSet>, g: u64, c: u64)
    requires
        index_wf(old(m)),
    ensures
        index_wf(final(m)),
        index_view(final(m)@) == index_without(index_view(old(m)@), g, c),
{
    match m.remove(g) {
        Some(mut set) => {
            set.remove(c);
            m.insert(g, set);
            proof {
                assert(index_view(m@) =~= index_without(index_view(old(m)@), g, c));
            }
        },
        None => {
            proof {
                assert(index_view(m@) =~= index_without(index_view(old(m)@), g, c));
            }
        },
    }
}

/// Inserts a pair into a key's set, creating the set if absent.
pub fn pair_index_add(m: &mut IdMap<PairSet>, c: u64, p: (u64, u64))
    requires
        pair_index_wf(old(m)),
    ensures
        pair_index_wf(final(m)),
        pair_index_view(final(m)@) == pair_index_with(pair_index_view(old(m)@), c, p),
{
    let mut set = match m.remove(c) {
        Some(s) => s,
        None => PairSet::new(),
    };
    set.insert(p);
    m.insert(c, set);
    proof {
        assert(pair_index_view(m@) =~= pair_index_with(pair_index_view(old(m)@), c, p));
    }
}

/// Removes a pair from a key's set, retaining the set even when it becomes
/// empty; no-op when the key has no set.
pub fn pair_index_del(m: &mut IdMap<PairSet>, c: u64, p: (u64, u64))
    requires
        pair_index_wf(old(m)),
    ensures
        pair_index_wf(final(m)),
        pair_index_view(final(m)@) == pair_index_without(pair_index_view(old(m)@), c, p),
{
    match m.remove(c) {
        Some(mut set) => {
            set.remove(p);
            m.insert(c, set);
            proof {
                assert(pair_index_view(m@) =~= pair_index_without(pair_index_view(old(m)@), c, p));
            }
        },
        None => {
            proof {
                assert(pair_index_view(m@) =~= pair_index_without(pair_index_view(old(m)@), c, p));
            }
        },
    }
}

/// A guild-owned table and its index after storing an entity under its
/// owner. An entity previously recorded under another owner is unlinked from
/// that owner's set first, so no dangling index entry is left behind.
pub open spec fn spec_put_item<TV>(
    table: Map<u64, (u64, TV)>,
    index: Map<u64, Set<u64>>,
    g: u64,
    c: u64,
    v: TV,
) -> (Map<u64, (u64, TV)>, Map<u64, Set<u64>>) {
    let ix0 = if table.dom().contains(c) && table[c].0 != g {
        index_without(index, table[c].0, c)
    } else {
        index
    };
    (table.insert(c, (g, v)), index_with(ix0, g, c))
}

/// A guild-owned table and its index after deleting an entity and unlinking
/// it from its recorded owner.
pub open spec fn spec_del_item<TV>(
    table: Map<u64, (u64, TV)>,
    index: Map<u64, Set<u64>>,
    c: u64,
) -> (Map<u64, (u64, TV)>, Map<u64, Set<u64>>) {
    if table.dom().contains(c) {
        (table.remove(c), index_without(index, table[c].0, c))
    } else {
        (table, index)
    }
}

/// Storing an entity keeps the link invariant.
pub proof fn lemma_linked_put<TV>(
    table: Map<u64, (u64, TV)>,
    index: Map<u64, Set<u64>>,
    g: u64,
    c: u64,
    v: TV,
)
    requires
        linked(table, index),
    ensures
        linked(spec_put_item(table, index, g, c, v).0, spec_put_item(table, index, g, c, v).1),
{
    let t = spec_put_item(table, index, g, c, v).0;
    let ix = spec_put_item(table, index, g, c, v).1;
    let ix0 = if table.dom().contains(c) && table[c].0 != g {
        index_without(index, table[c].0, c)
    } else {
        index
    };
    assert forall|c2: u64| #[trigger] t.dom().contains(c2) implies ix.dom().contains(t[c2].0)
        && ix[t[c2].0].contains(c2) by {
        if c2 == c {
            assert(t[c].0 == g);
            assert(ix[g].contains(c));
        } else {
            assert(table.dom().contains(c2));
            let g2 = table[c2].0;
            assert(index.dom().contains(g2) && index[g2].contains(c2));
            if table.dom().contains(c) && table[c].0 != g && g2 == table[c].0 {
                assert(ix0[g2] == index[g2].remove(c));
                assert(ix0[g2].contains(c2));
            } else {
                assert(ix0.dom().contains(g2) && ix0[g2].contains(c2));
            }
            if g2 == g {
                assert(ix[g2] == set_at(ix0, g).insert(c));
                assert(ix[g2].contains(c2));
            } else {
                assert(ix[g2] == ix0[g2]);
            }
        }
    }
    assert forall|g2: u64, c2: u64|
        ix.dom().contains(g2) && #[trigger] ix[g2].contains(c2) implies t.dom().contains(c2)
        && t[c2].0 == g2 by {
        if g2 == g && c2 == c {
            assert(t[c].0 == g);
        } else if g2 == g {
            assert(set_at(ix0, g).contains(c2));
            assert(ix0.dom().contains(g) && ix0[g].contains(c2));
            if table.dom().contains(c) && table[c].0 != g && table[c].0 == g {
                assert(false);
            }
            assert(index.dom().contains(g) && index[g].contains(c2));
            assert(table.dom().contains(c2) && table[c2].0 == g);
        } else {
            assert(ix[g2] == ix0[g2]);
            if table.dom().contains(c) && table[c].0 != g && g2 == table[c].0 {
                assert(ix0[g2] == index[g2].remove(c));
                assert(index[g2].contains(c2) && c2 != c);
            } else {
                assert(ix0[g2] == index[g2]);
                assert(index.dom().contains(g2) && index[g2].contains(c2));
                assert(table.dom().contains(c2) && table[c2].0 == g2);
                if c2 == c {
                    assert(table[c].0 == g2 && g2 != g);
                    assert(false);
                }
            }
            assert(table.dom().contains(c2) && table[c2].0 == g2 && c2 != c);
        }
    }
}

/// Deleting an entity keeps the link invariant.
pub proof fn lemma_linked_del<TV>(table: Map<u64, (u64, TV)>, index: Map<u64, Set<u64>>, c: u64)
    requires
        linked(table, index),
    ensures
        linked(spec_del_item(table, index, c).0, spec_del_item(table, index, c).1),
{
    if !table.dom().contains(c) {
        return ;
    }
    let g = table[c].0;
    let t = table.remove(c);
    let ix = index_without(index, g, c);
    assert forall|c2: u64| #[trigger] t.dom().contains(c2) implies ix.dom().contains(t[c2].0)
        && ix[t[c2].0].contains(c2) by {
        assert(table.dom().contains(c2) && c2 != c);
        assert(index.dom().contains(table[c2].0) && index[table[c2].0].contains(c2));
    }
    assert forall|g2: u64, c2: u64|
        ix.dom().contains(g2) && #[trigger] ix[g2].contains(c2) implies t.dom().contains(c2)
        && t[c2].0 == g2 by {
        assert(index.dom().contains(g));
        if g2 == g {
            assert(ix[g2] == index[g].remove(c));
            assert(index[g].contains(c2) && c2 != c);
            assert(table.dom().contains(c2) && table[c2].0 == g2);
        } else {
            assert(ix[g2] == index[g2]);
            assert(index.dom().contains(g2) && index[g2].contains(c2));
            assert(table.dom().contains(c2) && table[c2].0 == g2);
            if c2 == c {
                assert(false);
            }
        }
    }
}

/// Inserting a pair-keyed entity and indexing it keeps the pair link
/// invariant.
pub proof fn lemma_linked_pair_insert<TV>(
    table: Map<(u64, u64), TV>,
    index: Map<u64, Set<u64>>,
    g: u64,
    u: u64,
    v: TV,
)
    requires
        linked_pair(table, index),
    ensures
        linked_pair(table.insert((g, u), v), index_with(index, g, u)),
{
    let t = table.insert((g, u), v);
    let ix = index_with(index, g, u);
    assert forall|g2: u64, u2: u64| #[trigger] t.dom().contains((g2, u2)) implies ix.dom().contains(
        g2,
    ) && ix[g2].contains(u2) by {
        if g2 != g || u2 != u {
            assert(table.dom().contains((g2, u2)));
        }
    }
    assert forall|g2: u64, u2: u64|
        ix.dom().contains(g2) && #[trigger] ix[g2].contains(u2) implies t.dom().contains(
        (g2, u2),
    ) by {
        if g2 == g {
            if u2 != u {
                assert(set_at(index, g).contains(u2));
                assert(index.dom().contains(g) && index[g].contains(u2));
            }
        } else {
            assert(index[g2].contains(u2));
        }
    }
}

/// Removing a pair-keyed entity and unindexing it keeps the pair link
/// invariant.
pub proof fn lemma_linked_pair_remove<TV>(
    table: Map<(u64, u64), TV>,
    index: Map<u64, Set<u64>>,
    g: u64,
    u: u64,
)
    requires
        linked_pair(table, index),
    ensures
        linked_pair(table.remove((g, u)), index_without(index, g, u)),
{
    let t = table.remove((g, u));
    let ix = index_without(index, g, u);
    assert forall|g2: u64, u2: u64| #[trigger] t.dom().contains((g2, u2)) implies ix.dom().contains(
        g2,
    ) && ix[g2].contains(u2) by {
        assert(table.dom().contains((g2, u2)));
        assert((g2, u2) != (g, u));
        assert(index.dom().contains(g2) && index[g2].contains(u2));
    }
    assert forall|g2: u64, u2: u64|
        ix.dom().contains(g2) && #[trigger] ix[g2].contains(u2) implies t.dom().contains(
        (g2, u2),
    ) by {
        if index.dom().contains(g) && g2 == g {
            assert(ix[g2] == index[g].remove(u));
            assert(index[g].contains(u2) && u2 != u);
            assert(table.dom().contains((g2, u2)));
        } else {
            assert(ix[g2] == index[g2]);
            assert(index.dom().contains(g2) && index[g2].contains(u2));
            assert(table.dom().contains((g2, u2)));
        }
    }
}


/// Stores a guild-owned entity and keeps its index in step: the entity is
/// indexed under its owner, and an entry previously owned by another guild is
/// unlinked from that guild's set first.
pub fn put_guild_item<T: View>(
    table: &mut IdMap<GuildItem<T>>,
    index: &mut IdMap<IdSet>,
    g: GuildId,
    c: u64,
    v: T,
)
    requires
        old(table).wf(),
        index_wf(old(index)),
    ensures
        final(table).wf(),
        index_wf(final(index)),
        item_table_view(final(table)@) == spec_put_item(
            item_table_view(old(table)@),
            index_view(old(index)@),
            g@,
            c,
            v@,
        ).0,
        index_view(final(index)@) == spec_put_item(
            item_table_view(old(table)@),
            index_view(old(index)@),
            g@,
            c,
            v@,
        ).1,
{
    let ghost tv0 = item_table_view(old(table)@);
    let ghost iv0 = index_view(old(index)@);
    let old_guild: Option<u64> = match table.get(c) {
        Some(item) => Some(item.guild_id.get()),
        None => None,
    };
    match old_guild {
        Some(og) => {
            if og != g.get() {
                index_del(index, og, c);
            }
        },
        None => {},
    }
    proof {
        assert(index_view(index@) == (if tv0.dom().contains(c) && tv0[c].0 != g@ {
            index_without(iv0, tv0[c].0, c)
        } else {
            iv0
        }));
    }
    table.insert(c, GuildItem { data: v, guild_id: g });
    index_add(index, g.get(), c);
    proof {
        assert(item_table_view(table@) =~= spec_put_item(tv0, iv0, g@, c, v@).0);
    }
}

/// Deletes a guild-owned entity and unlinks it from its recorded owner's set;
/// no-op when the entity is not stored.
pub fn del_guild_item<T: View>(table: &mut IdMap<GuildItem<T>>, index: &mut IdMap<IdSet>, c: u64)
    requires
        old(table).wf(),
        index_wf(old(index)),
    ensures
        final(table).wf(),
        index_wf(final(index)),
        item_table_view(final(table)@) == spec_del_item(
            item_table_view(old(table)@),
            index_view(old(index)@),
            c,
        ).0,
        index_view(final(index)@) == spec_del_item(
            item_table_view(old(table)@),
            index_view(old(index)@),
            c,
        ).1,
{
    let ghost tv0 = item_table_view(old(table)@);
    let ghost iv0 = index_view(old(index)@);
    match table.remove(c) {
        Some(item) => {
            index_del(index, item.guild_id.get(), c);
            proof {
                assert(tv0.dom().contains(c) && tv0[c].0 == item.guild_id@);
                assert(item_table_view(table@) =~= tv0.remove(c));
            }
        },
        None => {
            proof {
                assert(!tv0.dom().contains(c));
                assert(item_table_view(table@) =~= tv0);
            }
        },
    }
}

/// A guild-owned table and its index after storing a batch of entities under
/// one owner, in order.
pub open spec fn spec_put_items<TV>(
    table: Map<u64, (u64, TV)>,
    index: Map<u64, Set<u64>>,
    g: u64,
    items: Seq<(u64, TV)>,
) -> (Map<u64, (u64, TV)>, Map<u64, Set<u64>>)
    decreases items.len(),
{
    if items.len() == 0 {
        (table, index)
    } else {
        let p = spec_put_item(table, index, g, items[0].0, items[0].1);
        spec_put_items(p.0, p.1, g, items.drop_first())
    }
}

/// A guild-owned table and its index with every child of one owner removed
/// and the owner's set emptied.
pub open spec fn spec_clear_items<TV>(
    table: Map<u64, (u64, TV)>,
    index: Map<u64, Set<u64>>,
    g: u64,
) -> (Map<u64, (u64, TV)>, Map<u64, Set<u64>>) {
    (table.remove_keys(set_at(index, g)), index.insert(g, Set::empty()))
}

/// A guild-owned table and its index after a snapshot of one owner's
/// children: every previously-cached child of the owner that the snapshot no
/// longer lists is removed, and the listed children are stored.
pub open spec fn spec_replace_items<TV>(
    table: Map<u64, (u64, TV)>,
    index: Map<u64, Set<u64>>,
    g: u64,
    items: Seq<(u64, TV)>,
) -> (Map<u64, (u64, TV)>, Map<u64, Set<u64>>) {
    let cleared = spec_clear_items(table, index, g);
    spec_put_items(cleared.0, cleared.1, g, items)
}

/// Clearing one owner's children keeps the link invariant.
pub proof fn lemma_linked_clear<TV>(table: Map<u64, (u64, TV)>, index: Map<u64, Set<u64>>, g: u64)
    requires
        linked(table, index),
    ensures
        linked(spec_clear_items(table, index, g).0, spec_clear_items(table, index, g).1),
{
    let t = spec_clear_items(table, index, g).0;
    let ix = spec_clear_items(table, index, g).1;
    assert forall|c2: u64| #[trigger] t.dom().contains(c2) implies ix.dom().contains(t[c2].0)
        && ix[t[c2].0].contains(c2) by {
        assert(table.dom().contains(c2) && !set_at(index, g).contains(c2));
        let g2 = table[c2].0;
        assert(index.dom().contains(g2) && index[g2].contains(c2));
        assert(g2 != g);
    }
    assert forall|g2: u64, c2: u64|
        ix.dom().contains(g2) && #[trigger] ix[g2].contains(c2) implies t.dom().contains(c2)
        && t[c2].0 == g2 by {
        assert(g2 != g);
        assert(index.dom().contains(g2) && index[g2].contains(c2));
        assert(table.dom().contains(c2) && table[c2].0 == g2);
        assert(!set_at(index, g).contains(c2)) by {
            if set_at(index, g).contains(c2) {
                assert(index.dom().contains(g) && index[g].contains(c2));
                assert(table[c2].0 == g);
            }
        }
    }
}

/// Storing a batch of entities keeps the link invariant.
pub proof fn lemma_linked_put_items<TV>(
    table: Map<u64, (u64, TV)>,
    index: Map<u64, Set<u64>>,
    g: u64,
    items: Seq<(u64, TV)>,
)
    requires
        linked(table, index),
    ensures
        linked(spec_put_items(table, index, g, items).0, spec_put_items(table, index, g, items).1),
    decreases items.len(),
{
    if items.len() != 0 {
        lemma_linked_put(table, index, g, items[0].0, items[0].1);
        let p = spec_put_item(table, index, g, items[0].0, items[0].1);
        lemma_linked_put_items(p.0, p.1, g, items.drop_first());
    }
}

/// Every entry of a batch-stored table is an old entry left untouched, or one
/// of the batch's items stored under the owner.
pub proof fn lemma_put_items_entries<TV>(
    table: Map<u64, (u64, TV)>,
    index: Map<u64, Set<u64>>,
    g: u64,
    items: Seq<(u64, TV)>,
)
    ensures
        forall|c: u64| #[trigger] spec_put_items(table, index, g, items).0.dom().contains(c) ==> {
            ||| (table.dom().contains(c) && spec_put_items(table, index, g, items).0[c] == table[c])
            ||| (exists|i: int|
                0 <= i < items.len() && #[trigger] items[i].0 == c && spec_put_items(
                    table,
                    index,
                    g,
                    items,
                ).0[c] == (g, items[i].1))
        },
    decreases items.len(),
{
    if items.len() != 0 {
        let p = spec_put_item(table, index, g, items[0].0, items[0].1);
        lemma_put_items_entries(p.0, p.1, g, items.drop_first());
        let r = spec_put_items(table, index, g, items).0;
        let rest = items.drop_first();
        assert forall|c: u64| #[trigger] r.dom().contains(c) implies {
            ||| (table.dom().contains(c) && r[c] == table[c])
            ||| (exists|i: int|
                0 <= i < items.len() && #[trigger] items[i].0 == c && r[c] == (g, items[i].1))
        } by {
            assert(r == spec_put_items(p.0, p.1, g, rest).0);
            assert(spec_put_items(p.0, p.1, g, rest).0.dom().contains(c));
            if exists|i: int|
                0 <= i < rest.len() && #[trigger] rest[i].0 == c && r[c] == (g, rest[i].1) {
                let i = choose|i: int|
                    0 <= i < rest.len() && #[trigger] rest[i].0 == c && r[c] == (g, rest[i].1);
                assert(items[i + 1] == rest[i]);
                assert(items[i + 1].0 == c && r[c] == (g, items[i + 1].1));
            } else {
                assert(p.0.dom().contains(c) && r[c] == p.0[c]);
                if c == items[0].0 {
                    assert(p.0[c] == (g, items[0].1));
                    assert(items[0].0 == c && r[c] == (g, items[0].1));
                } else {
                    assert(table.dom().contains(c) && p.0[c] == table[c]);
                }
            }
        }
    }
}

/// Taking one more element extends the taken set by that element.
pub proof fn lemma_take_to_set_step(s: Seq<u64>, i: int)
    requires
        0 <= i < s.len(),
    ensures
        s.take(i + 1).to_set() == s.take(i).to_set().insert(s[i]),
{
    assert forall|x: u64| #[trigger] s.take(i + 1).to_set().contains(x) implies s.take(
        i,
    ).to_set().insert(s[i]).contains(x) by {
        let j = choose|j: int| 0 <= j < s.take(i + 1).len() && (#[trigger] s.take(i + 1)[j]) == x;
        if j < i {
            assert(s.take(i)[j] == x);
        }
    }
    assert forall|x: u64| #[trigger] s.take(i).to_set().insert(s[i]).contains(x) implies s.take(
        i + 1,
    ).to_set().contains(x) by {
        if x == s[i] {
            assert(s.take(i + 1)[i] == x);
        } else {
            let j = choose|j: int| 0 <= j < s.take(i).len() && (#[trigger] s.take(i)[j]) == x;
            assert(s.take(i + 1)[j] == x);
        }
    }
    assert(s.take(i + 1).to_set() =~= s.take(i).to_set().insert(s[i]));
}

/// Stores a snapshot of one owner's children: previously-cached children the
/// snapshot no longer lists are removed, and the listed children are stored
/// in order.
pub fn replace_guild_items<T: View>(
    table: &mut IdMap<GuildItem<T>>,
    index: &mut IdMap<IdSet>,
    g: GuildId,
    items: Vec<(u64, T)>,
)
    requires
        old(table).wf(),
        index_wf(old(index)),
    ensures
        final(table).wf(),
        index_wf(final(index)),
        ({
            let r = spec_replace_items(
                item_table_view(old(table)@),
                index_view(old(index)@),
                g@,
                items@.map_values(|p: (u64, T)| (p.0, p.1@)),
            );
            item_table_view(final(table)@) == r.0 && index_view(final(index)@) == r.1
        }),
{
    let ghost itemsv = items@.map_values(|p: (u64, T)| (p.0, p.1@));
    let olds = match index.remove(g.get()) {
        Some(s) => s,
        None => IdSet::new(),
    };
    index.insert(g.get(), IdSet::new());
    let n = olds.len();
    proof {
        olds.lemma_seq_view();
        assert(item_table_view(table@) =~= item_table_view(old(table)@).remove_keys(
            olds.seq().take(0).to_set(),
        ));
        assert(index_view(index@) =~= index_view(old(index)@).insert(g@, Set::<u64>::empty()));
    }
    for i in 0..n
        invariant
            n == olds.seq().len(),
            olds.wf(),
            table.wf(),
            olds@ == olds.seq().to_set(),
            olds@ == set_at(index_view(old(index)@), g@),
            index_wf(index),
            index_view(index@) == index_view(old(index)@).insert(g@, Set::<u64>::empty()),
            item_table_view(table@) == item_table_view(old(table)@).remove_keys(
                olds.seq().take(i as int).to_set(),
            ),
    {
        let ghost pre_tv = item_table_view(table@);
        let key = olds.at(i);
        table.remove(key);
        proof {
            lemma_take_to_set_step(olds.seq(), i as int);
            assert(item_table_view(table@) =~= pre_tv.remove(olds.seq()[i as int]));
            assert(pre_tv.remove(olds.seq()[i as int]) =~= item_table_view(
                old(table)@,
            ).remove_keys(olds.seq().take(i + 1).to_set()));
        }
    }
    proof {
        assert(olds.seq().take(n as int) =~= olds.seq());
        assert(item_table_view(table@) =~= spec_clear_items(
            item_table_view(old(table)@),
            index_view(old(index)@),
            g@,
        ).0);
        assert(itemsv.skip(0) =~= itemsv);
    }
    let mut items = items;
    let m = items.len();
    for j in 0..m
        invariant
            m == items@.len() + j,
            itemsv.len() == m,
            table.wf(),
            index_wf(index),
            itemsv.skip(j as int) == items@.map_values(|p: (u64, T)| (p.0, p.1@)),
            spec_put_items(
                item_table_view(table@),
                index_view(index@),
                g@,
                itemsv.skip(j as int),
            ) == spec_put_items(
                spec_clear_items(
                    item_table_view(old(table)@),
                    index_view(old(index)@),
                    g@,
                ).0,
                spec_clear_items(
                    item_table_view(old(table)@),
                    index_view(old(index)@),
                    g@,
                ).1,
                g@,
                itemsv,
            ),
    {
        let ghost pre_items = items@;
        let (id, v) = items.remove(0);
        let ghost vv = v@;
        proof {
            assert(itemsv.len() == m);
            assert(itemsv.skip(j as int).len() == m - j);
            assert(pre_items.map_values(|p: (u64, T)| (p.0, p.1@))[0] == (id, vv));
            assert(itemsv.skip(j as int)[0] == (id, vv));
            assert(items@ =~= pre_items.drop_first());
            assert(items@.map_values(|p: (u64, T)| (p.0, p.1@)) =~= pre_items.map_values(
                |p: (u64, T)| (p.0, p.1@),
            ).drop_first());
            assert(itemsv.skip(j as int).drop_first() =~= itemsv.skip(j + 1));
        }
        put_guild_item(table, index, g, id, v);
    }
    proof {
        assert(itemsv.skip(m as int) =~= Seq::<(u64, T::V)>::empty());
    }
}


/// A guild-owned table and its index with one owner's children and the
/// owner's set removed entirely, as a cascade does.
pub open spec fn spec_drop_items<TV>(
    table: Map<u64, (u64, TV)>,
    index: Map<u64, Set<u64>>,
    g: u64,
) -> (Map<u64, (u64, TV)>, Map<u64, Set<u64>>) {
    (table.remove_keys(set_at(index, g)), index.remove(g))
}

/// Dropping one owner's children keeps the link invariant.
pub proof fn lemma_linked_drop<TV>(table: Map<u64, (u64, TV)>, index: Map<u64, Set<u64>>, g: u64)
    requires
        linked(table, index),
    ensures
        linked(spec_drop_items(table, index, g).0, spec_drop_items(table, index, g).1),
{
    let t = spec_drop_items(table, index, g).0;
    let ix = spec_drop_items(table, index, g).1;
    assert forall|c2: u64| #[trigger] t.dom().contains(c2) implies ix.dom().contains(t[c2].0)
        && ix[t[c2].0].contains(c2) by {
        assert(table.dom().contains(c2) && !set_at(index, g).contains(c2));
        let g2 = table[c2].0;
        assert(index.dom().contains(g2) && index[g2].contains(c2));
        assert(g2 != g);
    }
    assert forall|g2: u64, c2: u64|
        ix.dom().contains(g2) && #[trigger] ix[g2].contains(c2) implies t.dom().contains(c2)
        && t[c2].0 == g2 by {
        assert(g2 != g);
        assert(index.dom().contains(g2) && index[g2].contains(c2));
        assert(table.dom().contains(c2) && table[c2].0 == g2);
        assert(!set_at(index, g).contains(c2)) by {
            if set_at(index, g).contains(c2) {
                assert(index.dom().contains(g) && index[g].contains(c2));
                assert(table[c2].0 == g);
            }
        }
    }
}

/// Removes one owner's children from the table and drops the owner's set,
/// as the cascade of a deleted parent does.
pub fn drop_guild_items<T: View>(table: &mut IdMap<GuildItem<T>>, index: &mut IdMap<IdSet>, g: u64)
    requires
        old(table).wf(),
        index_wf(old(index)),
    ensures
        final(table).wf(),
        index_wf(final(index)),
        item_table_view(final(table)@) == spec_drop_items(
            item_table_view(old(table)@),
            index_view(old(index)@),
            g,
        ).0,
        index_view(final(index)@) == spec_drop_items(
            item_table_view(old(table)@),
            index_view(old(index)@),
            g,
        ).1,
{
    let olds = match index.remove(g) {
        Some(s) => s,
        None => IdSet::new(),
    };
    let n = olds.len();
    proof {
        olds.lemma_seq_view();
        assert(item_table_view(table@) =~= item_table_view(old(table)@).remove_keys(
            olds.seq().take(0).to_set(),
        ));
        assert(index_view(index@) =~= index_view(old(index)@).remove(g));
    }
    for i in 0..n
        invariant
            n == olds.seq().len(),
            olds.wf(),
            table.wf(),
            olds@ == olds.seq().to_set(),
            olds@ == set_at(index_view(old(index)@), g),
            index_wf(index),
            index_view(index@) == index_view(old(index)@).remove(g),
            item_table_view(table@) == item_table_view(old(table)@).remove_keys(
                olds.seq().take(i as int).to_set(),
            ),
    {
        let ghost pre_tv = item_table_view(table@);
        let key = olds.at(i);
        table.remove(key);
        proof {
            lemma_take_to_set_step(olds.seq(), i as int);
            assert(item_table_view(table@) =~= pre_tv.remove(olds.seq()[i as int]));
            assert(pre_tv.remove(olds.seq()[i as int]) =~= item_table_view(
                old(table)@,
            ).remove_keys(olds.seq().take(i + 1).to_set()));
        }
    }
    proof {
        assert(olds.seq().take(n as int) =~= olds.seq());
        assert(item_table_view(table@) =~= spec_drop_items(
            item_table_view(old(table)@),
            index_view(old(index)@),
            g,
        ).0);
    }
}


/// The pairs keyed by one guild whose second element lies in a set.
pub open spec fn pairs_with(g: u64, us: Set<u64>) -> Set<(u64, u64)> {
    Set::new(|p: (u64, u64)| p.0 == g && us.contains(p.1))
}

/// A pair-keyed table and its index with one owner's entries and the owner's
/// set removed entirely, as a cascade does.
pub open spec fn spec_drop_pair_items<TV>(
    table: Map<(u64, u64), TV>,
    index: Map<u64, Set<u64>>,
    g: u64,
) -> (Map<(u64, u64), TV>, Map<u64, Set<u64>>) {
    (table.remove_keys(pairs_with(g, set_at(index, g))), index.remove(g))
}

/// Dropping one owner's pair-keyed entries keeps the pair link invariant.
pub proof fn lemma_linked_pair_drop<TV>(
    table: Map<(u64, u64), TV>,
    index: Map<u64, Set<u64>>,
    g: u64,
)
    requires
        linked_pair(table, index),
    ensures
        linked_pair(
            spec_drop_pair_items(table, index, g).0,
            spec_drop_pair_items(table, index, g).1,
        ),
{
    let t = spec_drop_pair_items(table, index, g).0;
    let ix = spec_drop_pair_items(table, index, g).1;
    assert forall|g2: u64, u2: u64| #[trigger] t.dom().contains((g2, u2)) implies ix.dom().contains(
        g2,
    ) && ix[g2].contains(u2) by {
        assert(table.dom().contains((g2, u2)));
        assert(!pairs_with(g, set_at(index, g)).contains((g2, u2)));
        assert(index.dom().contains(g2) && index[g2].contains(u2));
        assert(g2 != g);
    }
    assert forall|g2: u64, u2: u64|
        ix.dom().contains(g2) && #[trigger] ix[g2].contains(u2) implies t.dom().contains(
        (g2, u2),
    ) by {
        assert(g2 != g);
        assert(table.dom().contains((g2, u2)));
    }
}

/// Removes one owner's pair-keyed entries and drops the owner's set, as the
/// cascade of a deleted parent does.
pub fn drop_pair_items<T>(table: &mut PairMap<T>, index: &mut IdMap<IdSet>, g: u64)
    requires
        old(table).wf(),
        index_wf(old(index)),
    ensures
        final(table).wf(),
        index_wf(final(index)),
        final(table)@ == spec_drop_pair_items(old(table)@, index_view(old(index)@), g).0,
        index_view(final(index)@) == spec_drop_pair_items(
            old(table)@,
            index_view(old(index)@),
            g,
        ).1,
{
    let olds = match index.remove(g) {
        Some(s) => s,
        None => IdSet::new(),
    };
    let n = olds.len();
    proof {
        olds.lemma_seq_view();
        assert(table@ =~= old(table)@.remove_keys(pairs_with(g, olds.seq().take(0).to_set())));
        assert(index_view(index@) =~= index_view(old(index)@).remove(g));
    }
    for i in 0..n
        invariant
            n == olds.seq().len(),
            olds.wf(),
            table.wf(),
            olds@ == olds.seq().to_set(),
            olds@ == set_at(index_view(old(index)@), g),
            index_wf(index),
            index_view(index@) == index_view(old(index)@).remove(g),
            table@ == old(table)@.remove_keys(pairs_with(g, olds.seq().take(i as int).to_set())),
    {
        let ghost pre = table@;
        let u = olds.at(i);
        table.remove((g, u));
        proof {
            lemma_take_to_set_step(olds.seq(), i as int);
            assert(table@ =~= old(table)@.remove_keys(
                pairs_with(g, olds.seq().take(i + 1).to_set()),
            ));
        }
    }
    proof {
        assert(olds.seq().take(n as int) =~= olds.seq());
        assert(table@ =~= spec_drop_pair_items(old(table)@, index_view(old(index)@), g).0);
    }
}

} // verus!
