//! A map from text keys to values that keeps its entries in insertion
//! order, for the collections of a project document, and can list its
//! keys in code-point order as a `BTreeMap` walks them.
use vstd::prelude::*;
use crate::text::{lemma_seq_lt_asymmetric, lemma_seq_lt_irreflexive, lemma_seq_lt_total, lemma_seq_lt_transitive, seq_lt, str_eq, str_lt};

verus! {

/// The map that the entries describe, later entries winning.
pub open spec fn entries_map<T>(entries: Seq<(Seq<char>, T)>) -> Map<Seq<char>, T>
    decreases entries.len(),
{
    if entries.len() == 0 {
        Map::empty()
    } else {
        entries_map(entries.drop_last()).insert(entries.last().0, entries.last().1)
    }
}

pub open spec fn distinct_keys<T>(entries: Seq<(Seq<char>, T)>) -> bool {
    forall|a: int, b: int| 0 <= a < b < entries.len() ==> #[trigger] entries[a].0 != #[trigger] entries[b].0
}

proof fn lemma_entries_dom<T>(entries: Seq<(Seq<char>, T)>, k: Seq<char>)
    ensures
        entries_map(entries).dom().contains(k) <==> exists|i: int| 0 <= i < entries.len() && #[trigger] entries[i].0 == k,
    decreases entries.len(),
{
    if entries.len() > 0 {
        let d = entries.drop_last();
        lemma_entries_dom(d, k);
        if entries_map(d).dom().contains(k) {
            let i = choose|i: int| 0 <= i < d.len() && #[trigger] d[i].0 == k;
            assert(entries[i].0 == k);
        }
        if exists|i: int| 0 <= i < entries.len() && #[trigger] entries[i].0 == k {
            let i = choose|i: int| 0 <= i < entries.len() && #[trigger] entries[i].0 == k;
            if i < entries.len() - 1 {
                assert(d[i].0 == k);
            }
        }
    }
}

proof fn lemma_entries_index<T>(entries: Seq<(Seq<char>, T)>, i: int)
    requires
        distinct_keys(entries),
        0 <= i < entries.len(),
    ensures
        entries_map(entries).dom().contains(entries[i].0),
        entries_map(entries)[entries[i].0] == entries[i].1,
    decreases entries.len(),
{
    if i < entries.len() - 1 {
        let d = entries.drop_last();
        assert(distinct_keys(d)) by {
            assert forall|a: int, b: int| 0 <= a < b < d.len() implies #[trigger] d[a].0 != #[trigger] d[b].0 by {
                assert(entries[a].0 != entries[b].0);
            }
        }
        lemma_entries_index(d, i);
        assert(entries[i].0 != entries[entries.len() - 1].0);
    }
}

proof fn lemma_entries_update<T>(entries: Seq<(Seq<char>, T)>, i: int, v: T)
    requires
        distinct_keys(entries),
        0 <= i < entries.len(),
    ensures
        entries_map(entries.update(i, (entries[i].0, v))) == entries_map(entries).insert(entries[i].0, v),
    decreases entries.len(),
{
    let u = entries.update(i, (entries[i].0, v));
    let d = entries.drop_last();
    if i == entries.len() - 1 {
        assert(u.drop_last() =~= d);
        assert(entries_map(u) =~= entries_map(entries).insert(entries[i].0, v));
    } else {
        assert(distinct_keys(d)) by {
            assert forall|a: int, b: int| 0 <= a < b < d.len() implies #[trigger] d[a].0 != #[trigger] d[b].0 by {
                assert(entries[a].0 != entries[b].0);
            }
        }
        lemma_entries_update(d, i, v);
        assert(u.drop_last() =~= d.update(i, (d[i].0, v)));
        assert(entries[i].0 != entries.last().0);
        assert(entries_map(u) =~= entries_map(entries).insert(entries[i].0, v));
    }
}

proof fn lemma_entries_len<T>(entries: Seq<(Seq<char>, T)>)
    requires
        distinct_keys(entries),
    ensures
        entries_map(entries).dom().finite(),
        entries_map(entries).len() == entries.len(),
    decreases entries.len(),
{
    if entries.len() > 0 {
        let d = entries.drop_last();
        assert(distinct_keys(d)) by {
            assert forall|a: int, b: int| 0 <= a < b < d.len() implies #[trigger] d[a].0 != #[trigger] d[b].0 by {
                assert(entries[a].0 != entries[b].0);
            }
        }
        lemma_entries_len(d);
        lemma_entries_dom(d, entries.last().0);
        if entries_map(d).dom().contains(entries.last().0) {
            let i = choose|i: int| 0 <= i < d.len() && #[trigger] d[i].0 == entries.last().0;
            assert(entries[i].0 != entries[entries.len() - 1].0);
        }
    }
}

/// Entries keyed by text, each key held once.
#[derive(Debug)]
pub struct KeyedMap<T> {
    entries: Vec<(String, T)>,
}

impl<T> KeyedMap<T> {
    pub closed spec fn entry_views(&self) -> Seq<(Seq<char>, T)> {
        self.entries@.map_values(|e: (String, T)| (e.0@, e.1))
    }

    #[verifier::type_invariant]
    closed spec fn keys_held_once(&self) -> bool {
        distinct_keys(self.entry_views())
    }
}

impl<T> View for KeyedMap<T> {
    type V = Map<Seq<char>, T>;

    closed spec fn view(&self) -> Map<Seq<char>, T> {
        entries_map(self.entry_views())
    }
}

impl<T> KeyedMap<T> {
    pub fn new() -> (r: Self)
        ensures
            r@ == Map::<Seq<char>, T>::empty(),
    {
        let r = KeyedMap { entries: Vec::new() };
        assert(r.entry_views() =~= Seq::<(Seq<char>, T)>::empty());
        r
    }

    fn position(&self, key: &str) -> (r: Option<usize>)
        ensures
            r is None ==> !self@.dom().contains(key@),
            r matches Some(i) ==> i < self.entries@.len() && self.entry_views()[i as int].0 == key@,
    {
        proof {
            use_type_invariant(self);
        }
        let n = self.entries.len();
        let mut i: usize = 0;
        while i < n
            invariant
                n == self.entries@.len(),
                i <= n,
                forall|j: int| 0 <= j < i ==> self.entries@[j].0@ != key@,
            decreases n - i,
        {
            if str_eq(self.entries[i].0.as_str(), key) {
                return Some(i);
            }
            i = i + 1;
        }
        proof {
            lemma_entries_dom(self.entry_views(), key@);
            if self@.dom().contains(key@) {
                let j = choose|j: int| 0 <= j < self.entry_views().len() && #[trigger] self.entry_views()[j].0 == key@;
                assert(self.entries@[j].0@ == key@);
            }
        }
        None
    }

    /// Whether `key` is held.
    pub fn contains_key(&self, key: &str) -> (b: bool)
        ensures
            b == self@.dom().contains(key@),
    {
        proof {
            use_type_invariant(self);
        }
        match self.position(key) {
            None => false,
            Some(i) => {
                proof {
                    lemma_entries_index(self.entry_views(), i as int);
                }
                true
            },
        }
    }

    /// The value held for `key`.
    pub fn get(&self, key: &str) -> (r: Option<&T>)
        ensures
            r is None <==> !self@.dom().contains(key@),
            r matches Some(v) ==> *v == self@[key@],
    {
        proof {
            use_type_invariant(self);
        }
        match self.position(key) {
            None => None,
            Some(i) => {
                proof {
                    lemma_entries_index(self.entry_views(), i as int);
                }
                Some(&self.entries[i].1)
            },
        }
    }

    /// Number of keys held.
    pub fn len(&self) -> (n: usize)
        ensures
            n == self@.len(),
            self@.dom().finite(),
    {
        proof {
            use_type_invariant(self);
            lemma_entries_len(self.entry_views());
        }
        self.entries.len()
    }

    /// Whether no key is held.
    pub fn is_empty(&self) -> (b: bool)
        ensures
            b == (self@.len() == 0),
            b == (self@ == Map::<Seq<char>, T>::empty()),
    {
        proof {
            use_type_invariant(self);
            lemma_entries_len(self.entry_views());
            if self.entries@.len() > 0 {
                lemma_entries_index(self.entry_views(), 0);
                assert(self@.dom().contains(self.entry_views()[0].0));
            } else {
                assert(self@ =~= Map::<Seq<char>, T>::empty());
            }
        }
        self.entries.len() == 0
    }

    /// The entries, in the order their keys were first written.
    pub fn entries(&self) -> (r: &Vec<(String, T)>)
        ensures
            forall|i: int| 0 <= i < r@.len() ==> #[trigger] self@.dom().contains(r@[i].0@) && self@[r@[i].0@] == r@[i].1,
            forall|k: Seq<char>| #[trigger] self@.dom().contains(k) ==> exists|i: int| 0 <= i < r@.len() && r@[i].0@ == k,
    {
        proof {
            use_type_invariant(self);
            assert forall|i: int| 0 <= i < self.entries@.len() implies #[trigger] self@.dom().contains(self.entries@[i].0@)
                && self@[self.entries@[i].0@] == self.entries@[i].1 by {
                lemma_entries_index(self.entry_views(), i);
            }
            assert forall|k: Seq<char>| #[trigger] self@.dom().contains(k) implies exists|i: int|
                0 <= i < self.entries@.len() && self.entries@[i].0@ == k by {
                lemma_entries_dom(self.entry_views(), k);
                let i = choose|i: int| 0 <= i < self.entry_views().len() && #[trigger] self.entry_views()[i].0 == k;
                assert(self.entries@[i].0@ == k);
            }
        }
        &self.entries
    }

    /// Writes `value` for `key`, replacing what was held for it.
    pub fn insert(&mut self, key: String, value: T)
        ensures
            final(self)@ == old(self)@.insert(key@, value),
    {
        proof {
            use_type_invariant(&*self);
        }
        let ghost old_views = self.entry_views();
        match self.position(key.as_str()) {
            Some(i) => {
                let ghost k = self.entry_views()[i as int].0;
                let ghost kv = key@;
                let mut entries = Vec::new();
                std::mem::swap(&mut entries, &mut self.entries);
                entries.set(i, (key, value));
                proof {
                    let nv = entries@.map_values(|e: (String, T)| (e.0@, e.1));
                    assert(nv =~= old_views.update(i as int, (k, value)));
                    lemma_entries_update(old_views, i as int, value);
                    assert forall|a: int, b: int| 0 <= a < b < nv.len() implies #[trigger] nv[a].0 != #[trigger] nv[b].0 by {
                        assert(old_views[a].0 != old_views[b].0);
                    }
                }
                self.entries = entries;
            },
            None => {
                let ghost kv = key@;
                let mut entries = Vec::new();
                std::mem::swap(&mut entries, &mut self.entries);
                entries.push((key, value));
                proof {
                    let nv = entries@.map_values(|e: (String, T)| (e.0@, e.1));
                    assert(nv =~= old_views.push((kv, value)));
                    assert(nv.drop_last() =~= old_views);
                    lemma_entries_dom(old_views, kv);
                    assert forall|a: int, b: int| 0 <= a < b < nv.len() implies #[trigger] nv[a].0 != #[trigger] nv[b].0 by {
                        if b == old_views.len() {
                            assert(old_views[a].0 != kv);
                        } else {
                            assert(old_views[a].0 != old_views[b].0);
                        }
                    }
                }
                self.entries = entries;
            },
        }
    }
}


/// The texts of `s`.
pub open spec fn key_views(s: Seq<String>) -> Seq<Seq<char>> {
    s.map_values(|k: String| k@)
}

/// Strictly increasing in code-point order.
pub open spec fn increasing(s: Seq<Seq<char>>) -> bool {
    forall|i: int, j: int| 0 <= i < j < s.len() ==> seq_lt(#[trigger] s[i], #[trigger] s[j])
}

/// `s` lists the members of `keys` in increasing order.
pub open spec fn lists_in_order(s: Seq<Seq<char>>, keys: Set<Seq<char>>) -> bool {
    increasing(s) && forall|k: Seq<char>| keys.contains(k) <==> s.contains(k)
}

/// The keys of `m` in increasing code-point order.
pub open spec fn key_order<T>(m: Map<Seq<char>, T>) -> Seq<Seq<char>> {
    choose|s: Seq<Seq<char>>| lists_in_order(s, m.dom())
}

/// Two increasing sequences with the same members are the same.
pub proof fn lemma_order_unique(s: Seq<Seq<char>>, t: Seq<Seq<char>>)
    requires
        increasing(s),
        increasing(t),
        forall|k: Seq<char>| s.contains(k) <==> t.contains(k),
    ensures
        s == t,
    decreases s.len(),
{
    if s.len() == 0 {
        if t.len() > 0 {
            assert(t.contains(t[0]));
        }
        assert(s =~= t);
    } else {
        assert(s.contains(s[0]));
        let j = choose|j: int| 0 <= j < t.len() && t[j] == s[0];
        assert(t.contains(t[0]));
        let i = choose|i: int| 0 <= i < s.len() && s[i] == t[0];
        if i > 0 && j > 0 {
            assert(seq_lt(s[0], s[i]));
            assert(seq_lt(t[0], t[j]));
            lemma_seq_lt_asymmetric(s[0], t[0]);
        }
        assert(s[0] == t[0]);
        let s1 = s.drop_first();
        let t1 = t.drop_first();
        assert forall|k: Seq<char>| s1.contains(k) <==> t1.contains(k) by {
            if s1.contains(k) {
                let a = choose|a: int| 0 <= a < s1.len() && s1[a] == k;
                assert(seq_lt(s[0], s[a + 1]));
                lemma_seq_lt_irreflexive(k);
                assert(s.contains(k));
                let b = choose|b: int| 0 <= b < t.len() && t[b] == k;
                assert(b != 0);
                assert(t1[b - 1] == k);
            }
            if t1.contains(k) {
                let a = choose|a: int| 0 <= a < t1.len() && t1[a] == k;
                assert(seq_lt(t[0], t[a + 1]));
                lemma_seq_lt_irreflexive(k);
                assert(t.contains(k));
                let b = choose|b: int| 0 <= b < s.len() && s[b] == k;
                assert(b != 0);
                assert(s1[b - 1] == k);
            }
        }
        assert(increasing(s1)) by {
            assert forall|a: int, b: int| 0 <= a < b < s1.len() implies seq_lt(#[trigger] s1[a], #[trigger] s1[b]) by {
                assert(seq_lt(s[a + 1], s[b + 1]));
            }
        }
        assert(increasing(t1)) by {
            assert forall|a: int, b: int| 0 <= a < b < t1.len() implies seq_lt(#[trigger] t1[a], #[trigger] t1[b]) by {
                assert(seq_lt(t[a + 1], t[b + 1]));
            }
        }
        lemma_order_unique(s1, t1);
        assert(s =~= seq![s[0]] + s1);
        assert(t =~= seq![t[0]] + t1);
    }
}

/// An increasing listing of the keys is the key order.
pub proof fn lemma_key_order<T>(m: Map<Seq<char>, T>, s: Seq<Seq<char>>)
    requires
        lists_in_order(s, m.dom()),
    ensures
        key_order(m) == s,
{
    let t = key_order(m);
    assert(lists_in_order(t, m.dom()));
    lemma_order_unique(s, t);
}

/// A listing of the keys in order names each key once.
pub proof fn lemma_key_order_len<T>(m: Map<Seq<char>, T>)
    requires
        lists_in_order(key_order(m), m.dom()),
    ensures
        key_order(m).len() == m.dom().len(),
        key_order(m).no_duplicates(),
{
    let s = key_order(m);
    assert(s.no_duplicates()) by {
        assert forall|i: int, j: int| 0 <= i < s.len() && 0 <= j < s.len() && i != j implies s[i] != s[j] by {
            if i < j {
                assert(seq_lt(s[i], s[j]));
                if s[i] == s[j] {
                    lemma_seq_lt_irreflexive(s[i]);
                }
            } else {
                assert(seq_lt(s[j], s[i]));
                if s[i] == s[j] {
                    lemma_seq_lt_irreflexive(s[i]);
                }
            }
        }
    }
    s.unique_seq_to_set();
    assert(s.to_set() =~= m.dom());
}

impl<T> KeyedMap<T> {
    /// The keys held, in increasing code-point order.
    pub fn sorted_keys(&self) -> (r: Vec<String>)
        ensures
            key_views(r@) == key_order(self@),
            lists_in_order(key_order(self@), self@.dom()),
    {
        proof {
            use_type_invariant(self);
        }
        let ghost ev = self.entry_views();
        let n = self.entries.len();
        let mut sorted: Vec<String> = Vec::new();
        let mut i: usize = 0;
        while i < n
            invariant
                n == ev.len(),
                ev == self.entry_views(),
                distinct_keys(ev),
                i <= n,
                increasing(key_views(sorted@)),
                forall|k: Seq<char>| key_views(sorted@).contains(k) <==> exists|j: int| 0 <= j < i && #[trigger] ev[j].0 == k,
            decreases n - i,
        {
            let x = self.entries[i].0.clone();
            assert(x@ == ev[i as int].0);
            let ghost before = key_views(sorted@);
            let m = sorted.len();
            let mut p: usize = 0;
            while p < m && !str_lt(x.as_str(), sorted[p].as_str())
                invariant
                    m == sorted@.len(),
                    before == key_views(sorted@),
                    p <= m,
                    forall|q: int| 0 <= q < p ==> !seq_lt(x@, #[trigger] before[q]),
                decreases m - p,
            {
                assert(before[p as int] == sorted@[p as int]@);
                p = p + 1;
            }
            proof {
                if p < m {
                    assert(before[p as int] == sorted@[p as int]@);
                }
            }
            sorted.insert(p, x);
            let ghost after = key_views(sorted@);
            assert(after =~= before.insert(p as int, ev[i as int].0));
            proof {
                assert forall|q: int| 0 <= q < before.len() implies #[trigger] before[q] != ev[i as int].0 by {
                    assert(before.contains(before[q]));
                    let j = choose|j: int| 0 <= j < i && #[trigger] ev[j].0 == before[q];
                    assert(ev[j].0 != ev[i as int].0);
                }
                assert forall|a: int, b: int| 0 <= a < b < after.len() implies seq_lt(#[trigger] after[a], #[trigger] after[b]) by {
                    let xv = ev[i as int].0;
                    if b < p {
                        assert(after[a] == before[a] && after[b] == before[b]);
                    } else if b == p {
                        assert(after[a] == before[a] && after[b] == xv);
                        assert(!seq_lt(xv, before[a]));
                        lemma_seq_lt_total(xv, before[a]);
                    } else if a < p {
                        assert(after[a] == before[a] && after[b] == before[b - 1]);
                    } else if a == p {
                        assert(after[a] == xv && after[b] == before[b - 1]);
                        if b - 1 > p {
                            assert(seq_lt(before[p as int], before[b - 1]));
                            lemma_seq_lt_transitive(xv, before[p as int], before[b - 1]);
                        }
                    } else {
                        assert(after[a] == before[a - 1] && after[b] == before[b - 1]);
                    }
                }
                assert forall|k: Seq<char>| after.contains(k) <==> exists|j: int| 0 <= j < i + 1 && #[trigger] ev[j].0 == k by {
                    if after.contains(k) {
                        let q = choose|q: int| 0 <= q < after.len() && after[q] == k;
                        if q < p {
                            assert(before[q] == k);
                            assert(before.contains(k));
                        } else if q > p {
                            assert(before[q - 1] == k);
                            assert(before.contains(k));
                        } else {
                            assert(ev[i as int].0 == k);
                        }
                    }
                    if exists|j: int| 0 <= j < i + 1 && #[trigger] ev[j].0 == k {
                        let j = choose|j: int| 0 <= j < i + 1 && #[trigger] ev[j].0 == k;
                        if j == i {
                            assert(after[p as int] == k);
                        } else {
                            assert(before.contains(k));
                            let q = choose|q: int| 0 <= q < before.len() && before[q] == k;
                            if q < p {
                                assert(after[q] == k);
                            } else {
                                assert(after[q + 1] == k);
                            }
                        }
                    }
                }
            }
            i = i + 1;
        }
        proof {
            assert forall|k: Seq<char>| self@.dom().contains(k) <==> key_views(sorted@).contains(k) by {
                lemma_entries_dom(ev, k);
            }
            lemma_key_order(self@, key_views(sorted@));
        }
        sorted
    }
}

} // verus!
