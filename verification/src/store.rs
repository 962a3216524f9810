//! Key-value tables and id sets that back the resource store.
//!
//! Each table is an association list with pairwise-distinct keys; its view is
//! a `Map` from keys to values. Each id set is a duplicate-free vector; its
//! view is a `Set`. Every operation states its effect on the view exactly,
//! so the cache's contracts can be written over plain `Map`s and `Set`s.

use vstd::prelude::*;
use vstd::pervasive::VecAdditionalExecFns;

verus! {

/// Whether the keys of an association list are pairwise distinct.
pub open spec fn distinct_keys<K, V>(s: Seq<(K, V)>) -> bool {
    forall|i: int, j: int| 0 <= i < j < s.len() ==> s[i].0 != s[j].0
}

/// The map that an association list denotes; later entries win.
pub open spec fn assoc_view<K, V>(s: Seq<(K, V)>) -> Map<K, V>
    decreases s.len(),
{
    if s.len() == 0 {
        Map::empty()
    } else {
        assoc_view(s.drop_last()).insert(s.last().0, s.last().1)
    }
}

pub proof fn lemma_assoc_finite<K, V>(s: Seq<(K, V)>)
    ensures
        assoc_view(s).dom().finite(),
    decreases s.len(),
{
    if s.len() != 0 {
        lemma_assoc_finite(s.drop_last());
    }
}

pub proof fn lemma_assoc_contains<K, V>(s: Seq<(K, V)>, k: K)
    ensures
        assoc_view(s).dom().contains(k) <==> exists|i: int| 0 <= i < s.len() && s[i].0 == k,
    decreases s.len(),
{
    if s.len() == 0 {
    } else {
        let d = s.drop_last();
        lemma_assoc_contains(d, k);
        if s.last().0 == k {
            assert(s[s.len() - 1].0 == k);
        } else {
            if exists|i: int| 0 <= i < d.len() && d[i].0 == k {
                let i = choose|i: int| 0 <= i < d.len() && d[i].0 == k;
                assert(s[i].0 == k);
            }
            if exists|i: int| 0 <= i < s.len() && s[i].0 == k {
                let i = choose|i: int| 0 <= i < s.len() && s[i].0 == k;
                assert(i < s.len() - 1);
                assert(d[i].0 == k);
            }
        }
    }
}

pub proof fn lemma_assoc_get<K, V>(s: Seq<(K, V)>, i: int)
    requires
        distinct_keys(s),
        0 <= i < s.len(),
    ensures
        assoc_view(s).dom().contains(s[i].0),
        assoc_view(s)[s[i].0] == s[i].1,
    decreases s.len(),
{
    if i == s.len() - 1 {
    } else {
        let d = s.drop_last();
        lemma_assoc_get(d, i);
        assert(d[i] == s[i]);
        assert(s.last().0 != s[i].0);
    }
}

pub proof fn lemma_assoc_len<K, V>(s: Seq<(K, V)>)
    requires
        distinct_keys(s),
    ensures
        assoc_view(s).dom().finite(),
        assoc_view(s).dom().len() == s.len(),
    decreases s.len(),
{
    if s.len() == 0 {
    } else {
        let d = s.drop_last();
        lemma_assoc_len(d);
        lemma_assoc_contains(d, s.last().0);
        assert(forall|i: int| 0 <= i < d.len() ==> d[i] == s[i]);
        assert(!assoc_view(d).dom().contains(s.last().0));
    }
}

pub proof fn lemma_assoc_update<K, V>(s: Seq<(K, V)>, i: int, v: V)
    requires
        distinct_keys(s),
        0 <= i < s.len(),
    ensures
        assoc_view(s.update(i, (s[i].0, v))) == assoc_view(s).insert(s[i].0, v),
    decreases s.len(),
{
    let k = s[i].0;
    let u = s.update(i, (k, v));
    if i == s.len() - 1 {
        assert(u.drop_last() =~= s.drop_last());
        assert(assoc_view(u) =~= assoc_view(s).insert(k, v));
    } else {
        let d = s.drop_last();
        lemma_assoc_update(d, i, v);
        assert(d[i] == s[i]);
        assert(u.drop_last() =~= d.update(i, (k, v)));
        assert(u.last() == s.last());
        assert(s.last().0 != k);
        assert(assoc_view(u) =~= assoc_view(s).insert(k, v));
    }
}

pub proof fn lemma_assoc_remove<K, V>(s: Seq<(K, V)>, i: int)
    requires
        distinct_keys(s),
        0 <= i < s.len(),
    ensures
        assoc_view(s.remove(i)) == assoc_view(s).remove(s[i].0),
    decreases s.len(),
{
    let k = s[i].0;
    let r = s.remove(i);
    if i == s.len() - 1 {
        assert(r =~= s.drop_last());
        lemma_assoc_contains(s.drop_last(), k);
        assert(forall|j: int| 0 <= j < s.drop_last().len() ==> s.drop_last()[j] == s[j]);
        assert(!assoc_view(s.drop_last()).dom().contains(k));
        assert(assoc_view(r) =~= assoc_view(s).remove(k));
    } else {
        let d = s.drop_last();
        lemma_assoc_remove(d, i);
        assert(d[i] == s[i]);
        assert(r.drop_last() =~= d.remove(i));
        assert(r.last() == s.last());
        assert(s.last().0 != k);
        assert(assoc_view(r) =~= assoc_view(s).remove(k));
    }
}

/// A table keyed by a single 64-bit id.
pub struct IdMap<V> {
    entries: Vec<(u64, V)>,
}

impl<V> View for IdMap<V> {
    type V = Map<u64, V>;

    closed spec fn view(&self) -> Map<u64, V> {
        assoc_view(self.entries@)
    }
}

impl<V> IdMap<V> {
    /// The table's keys are pairwise distinct.
    pub closed spec fn wf(&self) -> bool {
        distinct_keys(self.entries@)
    }

    pub fn new() -> (r: Self)
        ensures
            r@ == Map::<u64, V>::empty(),
            r.wf(),
    {
        IdMap { entries: Vec::new() }
    }

    fn find(&self, k: u64) -> (r: Option<usize>)
        ensures
            match r {
                Some(i) => i < self.entries@.len() && self.entries@[i as int].0 == k,
                None => forall|i: int| 0 <= i < self.entries@.len() ==> self.entries@[i].0 != k,
            },
    {
        let n = self.entries.len();
        for i in 0..n
            invariant
                n == self.entries@.len(),
                forall|j: int| 0 <= j < i ==> self.entries@[j].0 != k,
        {
            if self.entries[i].0 == k {
                return Some(i);
            }
        }
        None
    }

    pub fn contains_key(&self, k: u64) -> (r: bool)
        ensures
            r == self@.dom().contains(k),
    {
        proof {
            lemma_assoc_contains(self.entries@, k);
        }
        self.find(k).is_some()
    }

    pub fn get(&self, k: u64) -> (r: Option<&V>)
        requires
            self.wf(),
        ensures
            match r {
                Some(v) => self@.dom().contains(k) && *v == self@[k],
                None => !self@.dom().contains(k),
            },
    {
        proof {
            lemma_assoc_contains(self.entries@, k);
        }
        match self.find(k) {
            Some(i) => {
                proof {
                    lemma_assoc_get(self.entries@, i as int);
                }
                Some(&self.entries[i].1)
            },
            None => None,
        }
    }

    pub fn insert(&mut self, k: u64, v: V)
        requires
            old(self).wf(),
        ensures
            final(self).wf(),
            final(self)@ == old(self)@.insert(k, v),
    {
        match self.find(k) {
            Some(i) => {
                proof {
                    lemma_assoc_update(self.entries@, i as int, v);
                }
                self.entries.set(i, (k, v));
            },
            None => {
                proof {
                    assert(self.entries@.push((k, v)).drop_last() =~= self.entries@);
                }
                self.entries.push((k, v));
            },
        }
    }

    pub fn remove(&mut self, k: u64) -> (r: Option<V>)
        requires
            old(self).wf(),
        ensures
            final(self).wf(),
            final(self)@ == old(self)@.remove(k),
            match r {
                Some(v) => old(self)@.dom().contains(k) && v == old(self)@[k],
                None => !old(self)@.dom().contains(k),
            },
    {
        proof {
            lemma_assoc_contains(self.entries@, k);
        }
        match self.find(k) {
            Some(i) => {
                proof {
                    lemma_assoc_get(self.entries@, i as int);
                    lemma_assoc_remove(self.entries@, i as int);
                }
                let (_, v) = self.entries.remove(i);
                Some(v)
            },
            None => {
                proof {
                    assert(self@ =~= self@.remove(k));
                }
                None
            },
        }
    }

    pub fn len(&self) -> (r: usize)
        requires
            self.wf(),
        ensures
            r == self@.dom().len(),
            self@.dom().finite(),
    {
        proof {
            lemma_assoc_len(self.entries@);
        }
        self.entries.len()
    }

    pub fn is_empty(&self) -> (r: bool)
        requires
            self.wf(),
        ensures
            r == self@.dom().is_empty(),
    {
        proof {
            lemma_assoc_len(self.entries@);
            if self.entries@.len() == 0 {
                assert(self@.dom() =~= Set::<u64>::empty());
            } else {
                lemma_assoc_get(self.entries@, 0);
            }
        }
        self.entries.len() == 0
    }

    pub fn clear(&mut self)
        ensures
            final(self).wf(),
            final(self)@ == Map::<u64, V>::empty(),
    {
        self.entries.clear();
    }
}

/// A table keyed by a pair of 64-bit ids, such as guild id and user id.
pub struct PairMap<V> {
    entries: Vec<((u64, u64), V)>,
}

impl<V> View for PairMap<V> {
    type V = Map<(u64, u64), V>;

    closed spec fn view(&self) -> Map<(u64, u64), V> {
        assoc_view(self.entries@)
    }
}

impl<V> PairMap<V> {
    /// The table's keys are pairwise distinct.
    pub closed spec fn wf(&self) -> bool {
        distinct_keys(self.entries@)
    }

    pub fn new() -> (r: Self)
        ensures
            r@ == Map::<(u64, u64), V>::empty(),
            r.wf(),
    {
        PairMap { entries: Vec::new() }
    }

    fn find(&self, k: (u64, u64)) -> (r: Option<usize>)
        ensures
            match r {
                Some(i) => i < self.entries@.len() && self.entries@[i as int].0 == k,
                None => forall|i: int| 0 <= i < self.entries@.len() ==> self.entries@[i].0 != k,
            },
    {
        let n = self.entries.len();
        for i in 0..n
            invariant
                n == self.entries@.len(),
                forall|j: int| 0 <= j < i ==> self.entries@[j].0 != k,
        {
            if self.entries[i].0.0 == k.0 && self.entries[i].0.1 == k.1 {
                return Some(i);
            }
        }
        None
    }

    pub fn contains_key(&self, k: (u64, u64)) -> (r: bool)
        ensures
            r == self@.dom().contains(k),
    {
        proof {
            lemma_assoc_contains(self.entries@, k);
        }
        self.find(k).is_some()
    }

    pub fn get(&self, k: (u64, u64)) -> (r: Option<&V>)
        requires
            self.wf(),
        ensures
            match r {
                Some(v) => self@.dom().contains(k) && *v == self@[k],
                None => !self@.dom().contains(k),
            },
    {
        proof {
            lemma_assoc_contains(self.entries@, k);
        }
        match self.find(k) {
            Some(i) => {
                proof {
                    lemma_assoc_get(self.entries@, i as int);
                }
                Some(&self.entries[i].1)
            },
            None => None,
        }
    }

    pub fn insert(&mut self, k: (u64, u64), v: V)
        requires
            old(self).wf(),
        ensures
            final(self).wf(),
            final(self)@ == old(self)@.insert(k, v),
    {
        match self.find(k) {
            Some(i) => {
                proof {
                    lemma_assoc_update(self.entries@, i as int, v);
                }
                self.entries.set(i, (k, v));
            },
            None => {
                proof {
                    assert(self.entries@.push((k, v)).drop_last() =~= self.entries@);
                }
                self.entries.push((k, v));
            },
        }
    }

    pub fn remove(&mut self, k: (u64, u64)) -> (r: Option<V>)
        requires
            old(self).wf(),
        ensures
            final(self).wf(),
            final(self)@ == old(self)@.remove(k),
            match r {
                Some(v) => old(self)@.dom().contains(k) && v == old(self)@[k],
                None => !old(self)@.dom().contains(k),
            },
    {
        proof {
            lemma_assoc_contains(self.entries@, k);
        }
        match self.find(k) {
            Some(i) => {
                proof {
                    lemma_assoc_get(self.entries@, i as int);
                    lemma_assoc_remove(self.entries@, i as int);
                }
                let (_, v) = self.entries.remove(i);
                Some(v)
            },
            None => {
                proof {
                    assert(self@ =~= self@.remove(k));
                }
                None
            },
        }
    }

    pub fn len(&self) -> (r: usize)
        requires
            self.wf(),
        ensures
            r == self@.dom().len(),
            self@.dom().finite(),
    {
        proof {
            lemma_assoc_len(self.entries@);
        }
        self.entries.len()
    }

    pub fn is_empty(&self) -> (r: bool)
        requires
            self.wf(),
        ensures
            r == self@.dom().is_empty(),
    {
        proof {
            lemma_assoc_len(self.entries@);
            if self.entries@.len() == 0 {
                assert(self@.dom() =~= Set::<(u64, u64)>::empty());
            } else {
                lemma_assoc_get(self.entries@, 0);
            }
        }
        self.entries.len() == 0
    }

    pub fn clear(&mut self)
        ensures
            final(self).wf(),
            final(self)@ == Map::<(u64, u64), V>::empty(),
    {
        self.entries.clear();
    }
}

/// A duplicate-free set of 64-bit ids.
pub struct IdSet {
    items: Vec<u64>,
}

impl View for IdSet {
    type V = Set<u64>;

    closed spec fn view(&self) -> Set<u64> {
        self.items@.to_set()
    }
}

impl IdSet {
    /// The items are pairwise distinct.
    pub closed spec fn wf(&self) -> bool {
        self.items@.no_duplicates()
    }

    /// The items in insertion order; its `to_set` is the view.
    pub closed spec fn seq(&self) -> Seq<u64> {
        self.items@
    }

    pub proof fn lemma_seq_view(&self)
        ensures
            self@ == self.seq().to_set(),
            self.wf() ==> self.seq().no_duplicates(),
    {
    }

    pub fn new() -> (r: Self)
        ensures
            r@ == Set::<u64>::empty(),
            r.seq() == Seq::<u64>::empty(),
            r.wf(),
    {
        let s = IdSet { items: Vec::new() };
        proof {
            assert(s@ =~= Set::<u64>::empty());
        }
        s
    }

    fn find(&self, k: u64) -> (r: Option<usize>)
        ensures
            match r {
                Some(i) => i < self.items@.len() && self.items@[i as int] == k,
                None => forall|i: int| 0 <= i < self.items@.len() ==> self.items@[i] != k,
            },
    {
        let n = self.items.len();
        for i in 0..n
            invariant
                n == self.items@.len(),
                forall|j: int| 0 <= j < i ==> self.items@[j] != k,
        {
            if self.items[i] == k {
                return Some(i);
            }
        }
        None
    }

    pub fn contains(&self, k: u64) -> (r: bool)
        ensures
            r == self@.contains(k),
    {
        self.find(k).is_some()
    }

    pub fn insert(&mut self, k: u64)
        requires
            old(self).wf(),
        ensures
            final(self).wf(),
            final(self)@ == old(self)@.insert(k),
            old(self)@.contains(k) ==> final(self).seq() == old(self).seq(),
            !old(self)@.contains(k) ==> final(self).seq() == old(self).seq().push(k),
    {
        match self.find(k) {
            Some(_) => {
                proof {
                    assert(self@ =~= self@.insert(k));
                }
            },
            None => {
                self.items.push(k);
                proof {
                    let old_items = old(self).items@;
                    assert forall|x: u64| self@.contains(x) implies old(self)@.insert(k).contains(
                        x,
                    ) by {
                        let j = choose|j: int| 0 <= j < self.items@.len() && self.items@[j] == x;
                        if j < old_items.len() {
                            assert(old_items[j] == x);
                        }
                    }
                    assert forall|x: u64| old(self)@.insert(k).contains(x) implies self@.contains(
                        x,
                    ) by {
                        if x == k {
                            assert(self.items@[self.items@.len() - 1] == x);
                        } else {
                            let j = choose|j: int| 0 <= j < old_items.len() && old_items[j] == x;
                            assert(self.items@[j] == x);
                        }
                    }
                    assert(self@ =~= old(self)@.insert(k));
                }
            },
        }
    }

    pub fn remove(&mut self, k: u64)
        requires
            old(self).wf(),
        ensures
            final(self).wf(),
            final(self)@ == old(self)@.remove(k),
    {
        match self.find(k) {
            Some(i) => {
                self.items.remove(i);
                proof {
                    let old_items = old(self).items@;
                    assert forall|x: u64| self@.contains(x) implies old(self)@.remove(
                        k,
                    ).contains(x) by {
                        let j = choose|j: int| 0 <= j < self.items@.len() && self.items@[j] == x;
                        if j < i {
                            assert(old_items[j] == x);
                        } else {
                            assert(old_items[j + 1] == x);
                        }
                    }
                    assert forall|x: u64| old(self)@.remove(k).contains(x) implies self@.contains(
                        x,
                    ) by {
                        let j = choose|j: int| 0 <= j < old_items.len() && old_items[j] == x;
                        if j < i {
                            assert(self.items@[j] == x);
                        } else {
                            assert(j != i);
                            assert(self.items@[j - 1] == x);
                        }
                    }
                    assert(self@ =~= old(self)@.remove(k));
                }
            },
            None => {
                proof {
                    assert(self@ =~= old(self)@.remove(k));
                }
            },
        }
    }

    pub fn len(&self) -> (r: usize)
        requires
            self.wf(),
        ensures
            r == self@.len(),
            r == self.seq().len(),
            self@.finite(),
    {
        proof {
            self.items@.unique_seq_to_set();
        }
        self.items.len()
    }

    pub fn is_empty(&self) -> (r: bool)
        requires
            self.wf(),
        ensures
            r == self@.is_empty(),
    {
        proof {
            self.items@.unique_seq_to_set();
            if self.items@.len() == 0 {
                assert(self@ =~= Set::<u64>::empty());
            }
        }
        self.items.len() == 0
    }

    pub fn clear(&mut self)
        ensures
            final(self).wf(),
            final(self)@ == Set::<u64>::empty(),
            final(self).seq() == Seq::<u64>::empty(),
    {
        self.items.clear();
        proof {
            assert(self@ =~= Set::<u64>::empty());
        }
    }

    /// The item at a position, for iterating over the set.
    pub fn at(&self, i: usize) -> (r: u64)
        requires
            i < self.seq().len(),
        ensures
            r == self.seq()[i as int],
            self@.contains(r),
    {
        self.items[i]
    }

    /// A copy of the items in insertion order.
    pub fn to_vec(&self) -> (r: Vec<u64>)
        ensures
            r@ == self.seq(),
    {
        let mut out: Vec<u64> = Vec::new();
        let n = self.items.len();
        for i in 0..n
            invariant
                n == self.items@.len(),
                out@ == self.items@.subrange(0, i as int),
        {
            out.push(self.items[i]);
            proof {
                assert(out@ =~= self.items@.subrange(0, i + 1));
            }
        }
        proof {
            assert(out@ =~= self.items@);
        }
        out
    }
}

/// A duplicate-free set of pairs of 64-bit ids.
pub struct PairSet {
    items: Vec<(u64, u64)>,
}

impl View for PairSet {
    type V = Set<(u64, u64)>;

    closed spec fn view(&self) -> Set<(u64, u64)> {
        self.items@.to_set()
    }
}

impl PairSet {
    /// The items are pairwise distinct.
    pub closed spec fn wf(&self) -> bool {
        self.items@.no_duplicates()
    }

    /// The items in insertion order; its `to_set` is the view.
    pub closed spec fn seq(&self) -> Seq<(u64, u64)> {
        self.items@
    }

    pub proof fn lemma_seq_view(&self)
        ensures
            self@ == self.seq().to_set(),
            self.wf() ==> self.seq().no_duplicates(),
    {
    }

    pub fn new() -> (r: Self)
        ensures
            r@ == Set::<(u64, u64)>::empty(),
            r.seq() == Seq::<(u64, u64)>::empty(),
            r.wf(),
    {
        let s = PairSet { items: Vec::new() };
        proof {
            assert(s@ =~= Set::<(u64, u64)>::empty());
        }
        s
    }

    fn find(&self, k: (u64, u64)) -> (r: Option<usize>)
        ensures
            match r {
                Some(i) => i < self.items@.len() && self.items@[i as int] == k,
                None => forall|i: int| 0 <= i < self.items@.len() ==> self.items@[i] != k,
            },
    {
        let n = self.items.len();
        for i in 0..n
            invariant
                n == self.items@.len(),
                forall|j: int| 0 <= j < i ==> self.items@[j] != k,
        {
            if self.items[i].0 == k.0 && self.items[i].1 == k.1 {
                return Some(i);
            }
        }
        None
    }

    pub fn contains(&self, k: (u64, u64)) -> (r: bool)
        ensures
            r == self@.contains(k),
    {
        self.find(k).is_some()
    }

    pub fn insert(&mut self, k: (u64, u64))
        requires
            old(self).wf(),
        ensures
            final(self).wf(),
            final(self)@ == old(self)@.insert(k),
    {
        match self.find(k) {
            Some(_) => {
                proof {
                    assert(self@ =~= self@.insert(k));
                }
            },
            None => {
                self.items.push(k);
                proof {
                    let old_items = old(self).items@;
                    assert forall|x: (u64, u64)| self@.contains(x) implies old(self)@.insert(k).contains(
                        x,
                    ) by {
                        let j = choose|j: int| 0 <= j < self.items@.len() && self.items@[j] == x;
                        if j < old_items.len() {
                            assert(old_items[j] == x);
                        }
                    }
                    assert forall|x: (u64, u64)| old(self)@.insert(k).contains(x) implies self@.contains(
                        x,
                    ) by {
                        if x == k {
                            assert(self.items@[self.items@.len() - 1] == x);
                        } else {
                            let j = choose|j: int| 0 <= j < old_items.len() && old_items[j] == x;
                            assert(self.items@[j] == x);
                        }
                    }
                    assert(self@ =~= old(self)@.insert(k));
                }
            },
        }
    }

    pub fn remove(&mut self, k: (u64, u64))
        requires
            old(self).wf(),
        ensures
            final(self).wf(),
            final(self)@ == old(self)@.remove(k),
    {
        match self.find(k) {
            Some(i) => {
                self.items.remove(i);
                proof {
                    let old_items = old(self).items@;
                    assert forall|x: (u64, u64)| self@.contains(x) implies old(self)@.remove(
                        k,
                    ).contains(x) by {
                        let j = choose|j: int| 0 <= j < self.items@.len() && self.items@[j] == x;
                        if j < i {
                            assert(old_items[j] == x);
                        } else {
                            assert(old_items[j + 1] == x);
                        }
                    }
                    assert forall|x: (u64, u64)| old(self)@.remove(k).contains(
                        x,
                    ) implies self@.contains(x) by {
                        let j = choose|j: int| 0 <= j < old_items.len() && old_items[j] == x;
                        if j < i {
                            assert(self.items@[j] == x);
                        } else {
                            assert(j != i);
                            assert(self.items@[j - 1] == x);
                        }
                    }
                    assert(self@ =~= old(self)@.remove(k));
                }
            },
            None => {
                proof {
                    assert(self@ =~= old(self)@.remove(k));
                }
            },
        }
    }

    pub fn len(&self) -> (r: usize)
        requires
            self.wf(),
        ensures
            r == self@.len(),
            r == self.seq().len(),
            self@.finite(),
    {
        proof {
            self.items@.unique_seq_to_set();
        }
        self.items.len()
    }

    pub fn is_empty(&self) -> (r: bool)
        requires
            self.wf(),
        ensures
            r == self@.is_empty(),
    {
        proof {
            self.items@.unique_seq_to_set();
            if self.items@.len() == 0 {
                assert(self@ =~= Set::<(u64, u64)>::empty());
            }
        }
        self.items.len() == 0
    }

    pub fn clear(&mut self)
        ensures
            final(self).wf(),
            final(self)@ == Set::<(u64, u64)>::empty(),
            final(self).seq() == Seq::<(u64, u64)>::empty(),
    {
        self.items.clear();
        proof {
            assert(self@ =~= Set::<(u64, u64)>::empty());
        }
    }

    /// The item at a position, for iterating over the set.
    pub fn at(&self, i: usize) -> (r: (u64, u64))
        requires
            i < self.seq().len(),
        ensures
            r == self.seq()[i as int],
            self@.contains(r),
    {
        self.items[i]
    }
}

} // verus!
