//! Ordered collections backing every table of the node: a map from
//! `u128` keys to values, kept as a vector sorted strictly by key, and
//! a set of `u64` identifiers kept the same way. Both carry their
//! mathematical view (`Map`, `Set`) and all operations are specified
//! against it.

use vstd::prelude::*;

verus! {

/// Strict key-sortedness of an entry sequence.
pub open spec fn entries_sorted<V>(s: Seq<(u128, V)>) -> bool {
    forall|i: int, j: int| 0 <= i < j < s.len() ==> #[trigger] s[i].0 < #[trigger] s[j].0
}

/// The map that an entry sequence denotes.
pub open spec fn entries_as_map<V>(s: Seq<(u128, V)>) -> Map<u128, V>
    decreases s.len(),
{
    if s.len() == 0 {
        Map::empty()
    } else {
        entries_as_map(s.drop_last()).insert(s.last().0, s.last().1)
    }
}

pub proof fn lemma_entries_as_map_contains<V>(s: Seq<(u128, V)>, k: u128)
    ensures
        entries_as_map(s).contains_key(k) <==> exists|i: int| 0 <= i < s.len() && #[trigger] s[i].0 == k,
    decreases s.len(),
{
    if s.len() > 0 {
        lemma_entries_as_map_contains(s.drop_last(), k);
        if s.last().0 == k {
            assert(s[s.len() - 1].0 == k);
        } else {
            if entries_as_map(s).contains_key(k) {
                let i = choose|i: int| 0 <= i < s.drop_last().len() && #[trigger] s.drop_last()[i].0 == k;
                assert(s[i].0 == k);
            }
            if exists|i: int| 0 <= i < s.len() && #[trigger] s[i].0 == k {
                let i = choose|i: int| 0 <= i < s.len() && #[trigger] s[i].0 == k;
                assert(s.drop_last()[i].0 == k);
            }
        }
    }
}

pub proof fn lemma_entries_as_map_get<V>(s: Seq<(u128, V)>, i: int)
    requires
        entries_sorted(s),
        0 <= i < s.len(),
    ensures
        entries_as_map(s).contains_key(s[i].0),
        entries_as_map(s)[s[i].0] == s[i].1,
    decreases s.len(),
{
    lemma_entries_as_map_contains(s, s[i].0);
    if i == s.len() - 1 {
    } else {
        assert(s[i].0 < s[s.len() - 1].0);
        assert(s.drop_last()[i] == s[i]);
        lemma_entries_as_map_get(s.drop_last(), i);
    }
}

/// A map keyed by `u128`, stored as a vector of entries sorted
/// strictly by key; lookups run by binary search.
#[derive(Debug, Clone)]
pub struct UMap<V> {
    pub entries: Vec<(u128, V)>,
}

impl<V> UMap<V> {
    /// Structural well-formedness: keys strictly increase.
    pub open spec fn wf(self) -> bool {
        entries_sorted(self.entries@)
    }

    /// The denoted mathematical map.
    pub open spec fn view(self) -> Map<u128, V> {
        entries_as_map(self.entries@)
    }

    /// The entry sequence, in ascending key order.
    pub open spec fn seq(self) -> Seq<(u128, V)> {
        self.entries@
    }

    pub proof fn lemma_view_facts(self)
        requires
            self.wf(),
        ensures
            forall|k: u128| #[trigger] self@.contains_key(k)
                <==> exists|i: int| 0 <= i < self.seq().len() && #[trigger] self.seq()[i].0 == k,
            forall|i: int| 0 <= i < self.seq().len()
                ==> self@.contains_key(#[trigger] self.seq()[i].0) && self@[self.seq()[i].0] == self.seq()[i].1,
    {
        assert forall|k: u128| (#[trigger] self@.contains_key(k)
            <==> exists|i: int| 0 <= i < self.seq().len() && #[trigger] self.seq()[i].0 == k) by {
            lemma_entries_as_map_contains(self.seq(), k);
        }
        assert forall|i: int| 0 <= i < self.seq().len()
            implies self@.contains_key(#[trigger] self.seq()[i].0) && self@[self.seq()[i].0] == self.seq()[i].1 by {
            lemma_entries_as_map_get(self.seq(), i);
        }
    }

    pub fn new() -> (r: UMap<V>)
        ensures
            r.wf(),
            r@ == Map::<u128, V>::empty(),
            r.seq().len() == 0,
    {
        UMap { entries: Vec::new() }
    }

    pub fn len(&self) -> (r: usize)
        ensures
            r == self.seq().len(),
    {
        self.entries.len()
    }

    pub fn is_empty(&self) -> (r: bool)
        requires
            self.wf(),
        ensures
            r == (self.seq().len() == 0),
            r == (self@ =~= Map::<u128, V>::empty()),
    {
        proof {
            self.lemma_view_facts();
            if self.seq().len() > 0 {
                assert(self@.contains_key(self.seq()[0].0));
            }
        }
        self.entries.len() == 0
    }

    /// Index of the first entry whose key is `>= k`.
    fn lower_bound(&self, k: u128) -> (r: usize)
        requires
            self.wf(),
        ensures
            r <= self.seq().len(),
            forall|i: int| 0 <= i < r ==> #[trigger] self.seq()[i].0 < k,
            forall|i: int| r <= i < self.seq().len() ==> #[trigger] self.seq()[i].0 >= k,
    {
        let mut lo: usize = 0;
        let mut hi: usize = self.entries.len();
        while lo < hi
            invariant
                lo <= hi <= self.seq().len(),
                self.wf(),
                forall|i: int| 0 <= i < lo ==> #[trigger] self.seq()[i].0 < k,
                forall|i: int| hi <= i < self.seq().len() ==> #[trigger] self.seq()[i].0 >= k,
            decreases hi - lo,
        {
            let mid = lo + (hi - lo) / 2;
            if self.entries[mid].0 < k {
                lo = mid + 1;
            } else {
                hi = mid;
            }
        }
        lo
    }

    pub fn contains_key(&self, k: u128) -> (r: bool)
        requires
            self.wf(),
        ensures
            r == self@.contains_key(k),
    {
        self.get(k).is_some()
    }

    pub fn get(&self, k: u128) -> (r: Option<&V>)
        requires
            self.wf(),
        ensures
            r is Some <==> self@.contains_key(k),
            r is Some ==> r->0 == self@[k],
    {
        proof {
            self.lemma_view_facts();
        }
        let idx = self.lower_bound(k);
        if idx < self.entries.len() && self.entries[idx].0 == k {
            Some(&self.entries[idx].1)
        } else {
            assert(!self@.contains_key(k)) by {
                if self@.contains_key(k) {
                    let i = choose|i: int| 0 <= i < self.seq().len() && #[trigger] self.seq()[i].0 == k;
                    assert(i < idx ==> self.seq()[i].0 < k);
                    assert(i >= idx ==> self.seq()[i].0 >= k);
                }
            };
            None
        }
    }

    /// Insert or replace; the view gains the binding `k -> v`.
    pub fn insert(&mut self, k: u128, v: V)
        requires
            old(self).wf(),
        ensures
            final(self).wf(),
            final(self)@ == old(self)@.insert(k, v),
            final(self).seq().len()
                == old(self).seq().len() + if old(self)@.contains_key(k) { 0int } else { 1int },
            forall|i: int| 0 <= i < final(self).seq().len()
                ==> #[trigger] final(self).seq()[i] == (k, v) || old(self).seq().contains(final(self).seq()[i]),
    {
        proof {
            self.lemma_view_facts();
        }
        let idx = self.lower_bound(k);
        let ghost old_seq = self.seq();
        if idx < self.entries.len() && self.entries[idx].0 == k {
            self.entries[idx] = (k, v);
            proof {
                assert(self.seq() =~= old_seq.update(idx as int, (k, v)));
                assert(entries_sorted(self.seq()));
                lemma_update_as_map(old_seq, idx as int, v);
                assert forall|i: int| 0 <= i < self.seq().len()
                    implies #[trigger] self.seq()[i] == (k, v) || old_seq.contains(self.seq()[i]) by {
                    if i != idx {
                        assert(self.seq()[i] == old_seq[i]);
                    }
                }
            }
        } else {
            assert(!old(self)@.contains_key(k)) by {
                if old(self)@.contains_key(k) {
                    let i = choose|i: int| 0 <= i < old_seq.len() && #[trigger] old_seq[i].0 == k;
                    assert(i < idx ==> old_seq[i].0 < k);
                }
            };
            self.entries.insert(idx, (k, v));
            proof {
                assert(self.seq() =~= old_seq.insert(idx as int, (k, v)));
                assert forall|i: int| 0 <= i < self.seq().len()
                    implies #[trigger] self.seq()[i] == (k, v) || old_seq.contains(self.seq()[i]) by {
                    if i < idx {
                        assert(self.seq()[i] == old_seq[i]);
                    } else if i > idx {
                        assert(self.seq()[i] == old_seq[i - 1]);
                    }
                }
                assert(entries_sorted(self.seq())) by {
                    assert forall|i: int, j: int| 0 <= i < j < self.seq().len()
                        implies #[trigger] self.seq()[i].0 < #[trigger] self.seq()[j].0 by {
                        if j < idx {
                            assert(self.seq()[i] == old_seq[i] && self.seq()[j] == old_seq[j]);
                        } else if i > idx {
                            assert(self.seq()[i] == old_seq[i - 1] && self.seq()[j] == old_seq[j - 1]);
                        } else if i < idx && j == idx {
                            assert(self.seq()[i] == old_seq[i]);
                        } else if i == idx && j > idx {
                            assert(self.seq()[j] == old_seq[j - 1]);
                        } else if i < idx && j > idx {
                            assert(self.seq()[i] == old_seq[i] && self.seq()[j] == old_seq[j - 1]);
                        }
                    }
                };
                lemma_insert_as_map(old_seq, idx as int, k, v);
            }
        }
    }

    /// Remove a binding if present; returns the removed value.
    pub fn remove(&mut self, k: u128) -> (r: Option<V>)
        requires
            old(self).wf(),
        ensures
            final(self).wf(),
            final(self)@ == old(self)@.remove(k),
            r is Some <==> old(self)@.contains_key(k),
            r is Some ==> r->0 == old(self)@[k],
            final(self).seq().len()
                == old(self).seq().len() - if old(self)@.contains_key(k) { 1int } else { 0int },
            forall|i: int| 0 <= i < final(self).seq().len()
                ==> old(self).seq().contains(#[trigger] final(self).seq()[i]),
    {
        proof {
            self.lemma_view_facts();
        }
        let idx = self.lower_bound(k);
        let ghost old_seq = self.seq();
        if idx < self.entries.len() && self.entries[idx].0 == k {
            let (_, v) = self.entries.remove(idx);
            proof {
                assert(self.seq() =~= old_seq.remove(idx as int));
                assert forall|i: int| 0 <= i < self.seq().len()
                    implies old_seq.contains(#[trigger] self.seq()[i]) by {
                    let i0 = if i < idx { i } else { i + 1 };
                    assert(self.seq()[i] == old_seq[i0]);
                }
                assert(entries_sorted(self.seq())) by {
                    assert forall|i: int, j: int| 0 <= i < j < self.seq().len()
                        implies #[trigger] self.seq()[i].0 < #[trigger] self.seq()[j].0 by {
                        let i0 = if i < idx { i } else { i + 1 };
                        let j0 = if j < idx { j } else { j + 1 };
                        assert(self.seq()[i] == old_seq[i0] && self.seq()[j] == old_seq[j0]);
                    }
                };
                lemma_remove_as_map(old_seq, idx as int);
            }
            Some(v)
        } else {
            assert(!old(self)@.contains_key(k)) by {
                if old(self)@.contains_key(k) {
                    let i = choose|i: int| 0 <= i < old_seq.len() && #[trigger] old_seq[i].0 == k;
                    assert(i < idx ==> old_seq[i].0 < k);
                }
            };
            proof {
                assert(old(self)@.remove(k) =~= old(self)@);
            }
            None
        }
    }

    /// The entry at a position, in ascending key order.
    pub fn entry_at(&self, i: usize) -> (r: &(u128, V))
        requires
            self.wf(),
            i < self.seq().len(),
        ensures
            r == self.seq()[i as int],
            self@.contains_key(r.0),
            self@[r.0] == r.1,
    {
        proof {
            self.lemma_view_facts();
        }
        &self.entries[i]
    }

    /// All keys, ascending.
    pub fn keys(&self) -> (r: Vec<u128>)
        requires
            self.wf(),
        ensures
            r@.len() == self.seq().len(),
            forall|i: int| 0 <= i < r@.len() ==> #[trigger] r@[i] == self.seq()[i].0,
            forall|i: int| 0 <= i < r@.len() ==> self@.contains_key(#[trigger] r@[i]),
    {
        proof {
            self.lemma_view_facts();
        }
        let mut out: Vec<u128> = Vec::new();
        let n = self.entries.len();
        for i in 0..n
            invariant
                self.wf(),
                n == self.seq().len(),
                out@.len() == i,
                forall|j: int| 0 <= j < i ==> #[trigger] out@[j] == self.seq()[j].0,
        {
            out.push(self.entries[i].0);
        }
        proof {
            self.lemma_view_facts();
        }
        out
    }
}

impl<V: Copy> UMap<V> {
    /// An owned copy; entries are plain values, so the copy is equal.
    pub fn duplicate(&self) -> (r: UMap<V>)
        ensures
            r.seq() == self.seq(),
            r@ == self@,
            r.wf() == self.wf(),
    {
        let mut entries: Vec<(u128, V)> = Vec::new();
        let n = self.entries.len();
        for i in 0..n
            invariant
                n == self.entries@.len(),
                entries@ =~= self.entries@.take(i as int),
        {
            entries.push(self.entries[i]);
            proof {
                assert(entries@ =~= self.entries@.take(i + 1));
            }
        }
        proof {
            assert(self.entries@.take(n as int) =~= self.entries@);
        }
        UMap { entries }
    }
}

/// A base map overlaid with a delta: `Some` bindings shadow, `None`
/// bindings delete.
pub open spec fn eff_map<V>(base: Map<u128, V>, d: Map<u128, Option<V>>) -> Map<u128, V> {
    Map::new(
        |k: u128| if d.contains_key(k) { d[k] is Some } else { base.contains_key(k) },
        |k: u128| if d.contains_key(k) { d[k]->0 } else { base[k] },
    )
}

/// Overlaying commutes with mapping values.
pub proof fn lemma_eff_map_values<V, W>(base: Map<u128, V>, d: Map<u128, Option<V>>, f: spec_fn(V) -> W)
    ensures
        eff_map(base, d).map_values(f) =~= eff_map(
            base.map_values(f),
            d.map_values(|o: Option<V>| match o { Some(v) => Some(f(v)), None => None }),
        ),
{
}

impl<V> UMap<V> {
    /// Apply a delta in place: insert the `Some` bindings, delete the
    /// `None` ones.
    pub fn apply_delta(&mut self, delta: UMap<Option<V>>)
        requires
            old(self).wf(),
            delta.wf(),
        ensures
            final(self).wf(),
            final(self)@ == eff_map(old(self)@, delta@),
    {
        let ghost d0 = delta@;
        let mut work = delta;
        loop
            invariant
                self.wf(),
                work.wf(),
                eff_map(self@, entries_as_map(work.seq())) =~= eff_map(old(self)@, d0),
            ensures
                self.wf(),
                self@ == eff_map(old(self)@, d0),
            decreases work.seq().len(),
        {
            let popped = work.entries.pop();
            match popped {
                None => {
                    proof {
                        assert(entries_as_map(work.seq()) =~= Map::<u128, Option<V>>::empty());
                        assert(eff_map(self@, Map::<u128, Option<V>>::empty()) =~= self@);
                        assert(self@ =~= eff_map(old(self)@, d0));
                    }
                    break;
                },
                Some((k, ov)) => {
                    let ghost pre_seq = work.seq().push((k, ov));
                    proof {
                        assert(pre_seq.drop_last() =~= work.seq());
                        lemma_entries_as_map_contains(work.seq(), k);
                        assert(!entries_as_map(work.seq()).contains_key(k)) by {
                            if entries_as_map(work.seq()).contains_key(k) {
                                let i = choose|i: int| 0 <= i < work.seq().len()
                                    && #[trigger] work.seq()[i].0 == k;
                                assert(pre_seq[i].0 < pre_seq[pre_seq.len() - 1].0);
                            }
                        };
                    }
                    let ghost self0 = self@;
                    match ov {
                        Some(v) => {
                            self.insert(k, v);
                        },
                        None => {
                            self.remove(k);
                        },
                    }
                    proof {
                        assert(entries_as_map(pre_seq)
                            == entries_as_map(work.seq()).insert(k, ov));
                        assert(eff_map(self@, entries_as_map(work.seq()))
                            =~= eff_map(self0, entries_as_map(pre_seq)));
                    }
                },
            }
        }
    }
}

/// Two entry sequences with the same keys and, under `f`, the same
/// values denote the same value-mapped map.
pub proof fn lemma_as_map_map_values<V, W>(a: Seq<(u128, V)>, b: Seq<(u128, V)>, f: spec_fn(V) -> W)
    requires
        a.len() == b.len(),
        forall|i: int| 0 <= i < a.len() ==> #[trigger] a[i].0 == b[i].0 && f(a[i].1) == f(b[i].1),
    ensures
        entries_as_map(a).map_values(f) =~= entries_as_map(b).map_values(f),
    decreases a.len(),
{
    if a.len() > 0 {
        assert(forall|i: int| 0 <= i < a.drop_last().len()
            ==> #[trigger] a.drop_last()[i].0 == b.drop_last()[i].0
                && f(a.drop_last()[i].1) == f(b.drop_last()[i].1)) by {
            assert(forall|i: int| 0 <= i < a.drop_last().len()
                ==> a.drop_last()[i] == a[i] && b.drop_last()[i] == b[i]);
        };
        lemma_as_map_map_values(a.drop_last(), b.drop_last(), f);
        assert(a.last().0 == b.last().0 && f(a.last().1) == f(b.last().1));
        assert(entries_as_map(a).map_values(f)
            =~= entries_as_map(a.drop_last()).map_values(f).insert(a.last().0, f(a.last().1)));
        assert(entries_as_map(b).map_values(f)
            =~= entries_as_map(b.drop_last()).map_values(f).insert(b.last().0, f(b.last().1)));
    }
}

proof fn lemma_update_as_map<V>(s: Seq<(u128, V)>, i: int, v: V)
    requires
        entries_sorted(s),
        0 <= i < s.len(),
    ensures
        entries_as_map(s.update(i, (s[i].0, v))) =~= entries_as_map(s).insert(s[i].0, v),
    decreases s.len(),
{
    let s2 = s.update(i, (s[i].0, v));
    if i == s.len() - 1 {
        assert(s2.drop_last() =~= s.drop_last());
    } else {
        assert(s2.drop_last() =~= s.drop_last().update(i, (s[i].0, v)));
        assert(s.drop_last()[i] == s[i]);
        lemma_update_as_map(s.drop_last(), i, v);
        assert(s2.last() == s.last());
        assert(s[i].0 < s.last().0);
    }
}

proof fn lemma_insert_as_map<V>(s: Seq<(u128, V)>, i: int, k: u128, v: V)
    requires
        entries_sorted(s),
        0 <= i <= s.len(),
        forall|j: int| 0 <= j < i ==> #[trigger] s[j].0 < k,
        forall|j: int| i <= j < s.len() ==> #[trigger] s[j].0 > k,
    ensures
        entries_as_map(s.insert(i, (k, v))) =~= entries_as_map(s).insert(k, v),
    decreases s.len(),
{
    let s2 = s.insert(i, (k, v));
    if i == s.len() {
        assert(s2.drop_last() =~= s);
        assert(s2.last() == (k, v));
    } else {
        assert(s2.last() == s.last());
        assert(s2.drop_last() =~= s.drop_last().insert(i, (k, v)));
        lemma_insert_as_map(s.drop_last(), i, k, v);
        assert(s.last().0 != k);
    }
}

proof fn lemma_remove_as_map<V>(s: Seq<(u128, V)>, i: int)
    requires
        entries_sorted(s),
        0 <= i < s.len(),
    ensures
        entries_as_map(s.remove(i)) =~= entries_as_map(s).remove(s[i].0),
    decreases s.len(),
{
    let s2 = s.remove(i);
    lemma_entries_as_map_contains(s2, s[i].0);
    if i == s.len() - 1 {
        assert(s2 =~= s.drop_last());
        assert(!entries_as_map(s2).contains_key(s[i].0)) by {
            if entries_as_map(s2).contains_key(s[i].0) {
                let j = choose|j: int| 0 <= j < s2.len() && #[trigger] s2[j].0 == s[i].0;
                assert(s[j].0 < s[i].0);
            }
        };
        assert(entries_as_map(s2).remove(s[i].0) =~= entries_as_map(s2));
        assert(entries_as_map(s) == entries_as_map(s2).insert(s[i].0, s[i].1));
    } else {
        assert(s2.last() == s.last());
        assert(s2.drop_last() =~= s.drop_last().remove(i));
        assert(s.drop_last()[i] == s[i]);
        lemma_remove_as_map(s.drop_last(), i);
        assert(s[i].0 < s.last().0);
    }
}

/// A set of `u64` identifiers, stored sorted ascending.
#[derive(Debug, Clone)]
pub struct IdSet {
    pub items: Vec<u64>,
}

pub open spec fn ids_sorted(s: Seq<u64>) -> bool {
    forall|i: int, j: int| 0 <= i < j < s.len() ==> #[trigger] s[i] < #[trigger] s[j]
}

impl IdSet {
    pub open spec fn wf(self) -> bool {
        ids_sorted(self.items@)
    }

    /// The denoted mathematical set.
    pub open spec fn view(self) -> Set<u64> {
        self.items@.to_set()
    }

    pub open spec fn seq(self) -> Seq<u64> {
        self.items@
    }

    pub fn new() -> (r: IdSet)
        ensures
            r.wf(),
            r@ == Set::<u64>::empty(),
            r.seq().len() == 0,
    {
        let r = IdSet { items: Vec::new() };
        proof {
            assert(r@ =~= Set::<u64>::empty());
        }
        r
    }

    pub fn len(&self) -> (r: usize)
        ensures
            r == self.seq().len(),
    {
        self.items.len()
    }

    fn lower_bound(&self, k: u64) -> (r: usize)
        requires
            self.wf(),
        ensures
            r <= self.seq().len(),
            forall|i: int| 0 <= i < r ==> #[trigger] self.seq()[i] < k,
            forall|i: int| r <= i < self.seq().len() ==> #[trigger] self.seq()[i] >= k,
    {
        let mut lo: usize = 0;
        let mut hi: usize = self.items.len();
        while lo < hi
            invariant
                lo <= hi <= self.seq().len(),
                self.wf(),
                forall|i: int| 0 <= i < lo ==> #[trigger] self.seq()[i] < k,
                forall|i: int| hi <= i < self.seq().len() ==> #[trigger] self.seq()[i] >= k,
            decreases hi - lo,
        {
            let mid = lo + (hi - lo) / 2;
            if self.items[mid] < k {
                lo = mid + 1;
            } else {
                hi = mid;
            }
        }
        lo
    }

    pub fn contains(&self, k: u64) -> (r: bool)
        requires
            self.wf(),
        ensures
            r == self@.contains(k),
    {
        let idx = self.lower_bound(k);
        if idx < self.items.len() && self.items[idx] == k {
            assert(self@.contains(k)) by {
                assert(self.seq()[idx as int] == k);
            };
            true
        } else {
            assert(!self@.contains(k)) by {
                if self@.contains(k) {
                    let i = choose|i: int| 0 <= i < self.seq().len() && self.seq()[i] == k;
                    assert(i < idx ==> self.seq()[i] < k);
                }
            };
            false
        }
    }

    /// Insert; returns true when the identifier was new.
    pub fn insert(&mut self, k: u64) -> (r: bool)
        requires
            old(self).wf(),
        ensures
            final(self).wf(),
            final(self)@ == old(self)@.insert(k),
            r == !old(self)@.contains(k),
            final(self).seq().len() == old(self).seq().len() + if r { 1int } else { 0int },
    {
        let idx = self.lower_bound(k);
        let ghost old_seq = self.seq();
        if idx < self.items.len() && self.items[idx] == k {
            proof {
                assert(old_seq[idx as int] == k);
                assert(self@.insert(k) =~= self@);
            }
            false
        } else {
            assert(!old(self)@.contains(k)) by {
                if old(self)@.contains(k) {
                    let i = choose|i: int| 0 <= i < old_seq.len() && old_seq[i] == k;
                    assert(i < idx ==> old_seq[i] < k);
                }
            };
            self.items.insert(idx, k);
            proof {
                assert(self.seq() =~= old_seq.insert(idx as int, k));
                assert(ids_sorted(self.seq())) by {
                    assert forall|i: int, j: int| 0 <= i < j < self.seq().len()
                        implies #[trigger] self.seq()[i] < #[trigger] self.seq()[j] by {
                        let i0 = if i < idx { i } else { i - 1 };
                        let j0 = if j < idx { j } else { j - 1 };
                        if i != idx && j != idx {
                            assert(self.seq()[i] == old_seq[i0] && self.seq()[j] == old_seq[j0]);
                        } else if i == idx {
                            assert(self.seq()[j] == old_seq[j - 1]);
                        } else {
                            assert(self.seq()[i] == old_seq[i]);
                        }
                    }
                };
                assert(self@ =~= old(self)@.insert(k)) by {
                    assert forall|x: u64| (self@.contains(x) <==> old(self)@.insert(k).contains(x)) by {
                        if self@.contains(x) {
                            let i = choose|i: int| 0 <= i < self.seq().len() && self.seq()[i] == x;
                            if i != idx {
                                let i0 = if i < idx { i } else { i - 1 };
                                assert(old_seq[i0] == x);
                            }
                        }
                        if old(self)@.contains(x) {
                            let i = choose|i: int| 0 <= i < old_seq.len() && old_seq[i] == x;
                            let i2 = if i < idx { i } else { i + 1 };
                            assert(self.seq()[i2] == x);
                        }
                        if x == k {
                            assert(self.seq()[idx as int] == x);
                        }
                    }
                };
            }
            true
        }
    }

    /// Remove; returns true when the identifier was present.
    pub fn remove(&mut self, k: u64) -> (r: bool)
        requires
            old(self).wf(),
        ensures
            final(self).wf(),
            final(self)@ == old(self)@.remove(k),
            r == old(self)@.contains(k),
            final(self).seq().len() == old(self).seq().len() - if r { 1int } else { 0int },
    {
        let idx = self.lower_bound(k);
        let ghost old_seq = self.seq();
        if idx < self.items.len() && self.items[idx] == k {
            proof {
                assert(old_seq[idx as int] == k);
            }
            self.items.remove(idx);
            proof {
                assert(self.seq() =~= old_seq.remove(idx as int));
                assert(ids_sorted(self.seq())) by {
                    assert forall|i: int, j: int| 0 <= i < j < self.seq().len()
                        implies #[trigger] self.seq()[i] < #[trigger] self.seq()[j] by {
                        let i0 = if i < idx { i } else { i + 1 };
                        let j0 = if j < idx { j } else { j + 1 };
                        assert(self.seq()[i] == old_seq[i0] && self.seq()[j] == old_seq[j0]);
                    }
                };
                assert(self@ =~= old(self)@.remove(k)) by {
                    assert forall|x: u64| (self@.contains(x) <==> old(self)@.remove(k).contains(x)) by {
                        if self@.contains(x) {
                            let i = choose|i: int| 0 <= i < self.seq().len() && self.seq()[i] == x;
                            let i0 = if i < idx { i } else { i + 1 };
                            assert(old_seq[i0] == x);
                            if x == k {
                                assert(i0 != idx && old_seq[idx as int] == k);
                            }
                        }
                        if old(self)@.contains(x) && x != k {
                            let i = choose|i: int| 0 <= i < old_seq.len() && old_seq[i] == x;
                            assert(i != idx);
                            let i2 = if i < idx { i } else { i - 1 };
                            assert(self.seq()[i2] == x);
                        }
                    }
                };
            }
            true
        } else {
            assert(!old(self)@.contains(k)) by {
                if old(self)@.contains(k) {
                    let i = choose|i: int| 0 <= i < old_seq.len() && old_seq[i] == k;
                    assert(i < idx ==> old_seq[i] < k);
                }
            };
            proof {
                assert(self@.remove(k) =~= self@);
            }
            false
        }
    }

    pub fn item_at(&self, i: usize) -> (r: u64)
        requires
            self.wf(),
            i < self.seq().len(),
        ensures
            r == self.seq()[i as int],
            self@.contains(r),
    {
        proof {
            assert(self.seq()[i as int] == self.seq()[i as int]);
        }
        self.items[i]
    }
}

} // verus!
