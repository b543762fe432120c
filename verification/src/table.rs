//! An ordered map from strings to values: entries stay sorted by key in the
//! order of `str`, so walking it gives the keys in the same order a
//! `BTreeMap<String, _>` would.

use crate::text::{key_lt, lemma_key_lt_order, str_eq, str_lt};
use vstd::prelude::*;

verus! {

/// Keys of `s` strictly increase.
pub open spec fn keys_sorted<W>(s: Seq<(Seq<char>, W)>) -> bool {
    forall|i: int, j: int| 0 <= i < j < s.len() ==> key_lt(#[trigger] s[i].0, #[trigger] s[j].0)
}

/// Some entry of `s` has key `k`.
pub open spec fn has_key<W>(s: Seq<(Seq<char>, W)>, k: Seq<char>) -> bool {
    exists|i: int| 0 <= i < s.len() && #[trigger] s[i].0 == k
}

/// The map that a key-unique entry sequence stands for.
pub open spec fn entries_map<W>(s: Seq<(Seq<char>, W)>) -> Map<Seq<char>, W> {
    Map::new(
        |k: Seq<char>| has_key(s, k),
        |k: Seq<char>| s[choose|i: int| 0 <= i < s.len() && #[trigger] s[i].0 == k].1,
    )
}

/// In a sorted entry sequence, each entry is what the map holds at its key.
pub proof fn lemma_entries_map_at<W>(s: Seq<(Seq<char>, W)>, i: int)
    requires
        keys_sorted(s),
        0 <= i < s.len(),
    ensures
        entries_map(s).contains_key(s[i].0),
        entries_map(s)[s[i].0] == s[i].1,
{
    assert(has_key(s, s[i].0));
    let j = choose|j: int| 0 <= j < s.len() && #[trigger] s[j].0 == s[i].0;
    lemma_key_lt_order(s[i].0, s[j].0, s[i].0);
    if j < i {
        assert(key_lt(s[j].0, s[i].0));
    } else if i < j {
        assert(key_lt(s[i].0, s[j].0));
    }
}

/// What the map holds at a key is held by an entry with that key.
pub proof fn lemma_entries_map_value<W>(s: Seq<(Seq<char>, W)>, k: Seq<char>)
    requires
        entries_map(s).contains_key(k),
    ensures
        exists|i: int| 0 <= i < s.len() && #[trigger] s[i] == (k, entries_map(s)[k]),
{
    assert(has_key(s, k));
}

/// In a sorted entry sequence, a key at two positions is one position.
pub proof fn lemma_keys_unique<W>(s: Seq<(Seq<char>, W)>, i: int, j: int)
    requires
        keys_sorted(s),
        0 <= i < s.len(),
        0 <= j < s.len(),
        s[i].0 == s[j].0,
    ensures
        i == j,
{
    lemma_key_lt_order(s[i].0, s[j].0, s[i].0);
    if j < i {
        assert(key_lt(s[j].0, s[i].0));
    } else if i < j {
        assert(key_lt(s[i].0, s[j].0));
    }
}

/// The map of the first `n + 1` entries is the map of the first `n` with the
/// next entry added.
pub proof fn lemma_entries_map_take<W>(s: Seq<(Seq<char>, W)>, n: int)
    requires
        keys_sorted(s),
        0 <= n < s.len(),
    ensures
        entries_map(s.take(n + 1)) =~= entries_map(s.take(n)).insert(s[n].0, s[n].1),
        keys_sorted(s.take(n)),
{
    let a = s.take(n + 1);
    let b = s.take(n);
    assert(keys_sorted(a));
    assert(keys_sorted(b));
    assert forall|k: Seq<char>| #[trigger] has_key(a, k) <==> (has_key(b, k) || k == s[n].0) by {
        if has_key(a, k) {
            let i = choose|i: int| 0 <= i < a.len() && #[trigger] a[i].0 == k;
            if i < n {
                assert(b[i].0 == k);
            }
        }
        if has_key(b, k) {
            let i = choose|i: int| 0 <= i < b.len() && #[trigger] b[i].0 == k;
            assert(a[i].0 == k);
        }
        if k == s[n].0 {
            assert(a[n].0 == k);
        }
    }
    assert forall|k: Seq<char>| #[trigger] entries_map(a).contains_key(k) implies entries_map(a)[k]
        == entries_map(b).insert(s[n].0, s[n].1)[k] by {
        let i = choose|i: int| 0 <= i < a.len() && #[trigger] a[i].0 == k;
        lemma_entries_map_at(a, i);
        if i < n {
            assert(b[i] == a[i]);
            lemma_entries_map_at(b, i);
            if k == s[n].0 {
                lemma_keys_unique(s, i, n);
            }
        }
    }
    assert(entries_map(a).dom() =~= entries_map(b).insert(s[n].0, s[n].1).dom());
}

/// A value that can be copied with its view kept.
pub trait Duplicate: DeepView + Sized {
    fn duplicate(&self) -> (r: Self)
        ensures
            r.deep_view() == self.deep_view(),
    ;
}

impl Duplicate for String {
    fn duplicate(&self) -> (r: String) {
        self.clone()
    }
}

/// A map from strings to values, walked in key order.
#[derive(Debug)]
pub struct Table<V: DeepView> {
    entries: Vec<(String, V)>,
}

impl<V: DeepView> View for Table<V> {
    type V = Map<Seq<char>, V::V>;

    open spec fn view(&self) -> Map<Seq<char>, V::V> {
        entries_map(self.entries())
    }
}

impl<V: DeepView> DeepView for Table<V> {
    type V = Map<Seq<char>, V::V>;

    open spec fn deep_view(&self) -> Map<Seq<char>, V::V> {
        entries_map(self.entries())
    }
}

impl<V: DeepView> Table<V> {
    /// The entries, in increasing key order.
    pub closed spec fn entries(&self) -> Seq<(Seq<char>, V::V)> {
        self.entries.deep_view()
    }

    #[verifier::type_invariant]
    closed spec fn sorted(self) -> bool {
        keys_sorted(self.entries())
    }

    /// The empty table.
    pub fn new() -> (t: Self)
        ensures
            t.entries() == Seq::<(Seq<char>, V::V)>::empty(),
            t@ == Map::<Seq<char>, V::V>::empty(),
    {
        let t = Table { entries: Vec::new() };
        assert(t.entries() =~= Seq::<(Seq<char>, V::V)>::empty());
        assert(t@ =~= Map::<Seq<char>, V::V>::empty());
        t
    }

    /// The table with one entry.
    pub fn single(key: String, value: V) -> (t: Self)
        ensures
            t.entries() == seq![(key@, value.deep_view())],
            t@ == Map::<Seq<char>, V::V>::empty().insert(key@, value.deep_view()),
    {
        let ghost e = (key@, value.deep_view());
        let mut entries: Vec<(String, V)> = Vec::new();
        entries.push((key, value));
        assert(entries.deep_view() =~= seq![e]);
        let t = Table { entries };
        proof {
            lemma_entries_map_at(t.entries(), 0);
            assert(t@ =~= Map::<Seq<char>, V::V>::empty().insert(e.0, e.1));
        }
        t
    }

    /// The number of entries; it also tells that the entries are sorted.
    pub fn len(&self) -> (n: usize)
        ensures
            n == self.entries().len(),
            keys_sorted(self.entries()),
    {
        proof {
            use_type_invariant(self);
        }
        self.entries.len()
    }

    pub fn is_empty(&self) -> (b: bool)
        ensures
            b == (self.entries().len() == 0),
            b == (self@ == Map::<Seq<char>, V::V>::empty()),
    {
        proof {
            use_type_invariant(self);
            if self.entries().len() > 0 {
                lemma_entries_map_at(self.entries(), 0);
                assert(self@.contains_key(self.entries()[0].0));
            } else {
                assert(self@ =~= Map::<Seq<char>, V::V>::empty());
            }
        }
        self.entries.len() == 0
    }

    /// The key of the `i`th entry.
    pub fn key_at(&self, i: usize) -> (k: &String)
        requires
            i < self.entries().len(),
        ensures
            k@ == self.entries()[i as int].0,
    {
        &self.entries[i].0
    }

    /// The value of the `i`th entry.
    pub fn value_at(&self, i: usize) -> (v: &V)
        requires
            i < self.entries().len(),
        ensures
            v.deep_view() == self.entries()[i as int].1,
    {
        &self.entries[i].1
    }

    /// Looks a key up.
    pub fn get(&self, key: &str) -> (r: Option<&V>)
        ensures
            match r {
                Some(v) => self@.contains_key(key@) && v.deep_view() == self@[key@],
                None => !self@.contains_key(key@),
            },
    {
        proof {
            use_type_invariant(self);
        }
        let ghost s = self.entries();
        let mut i: usize = 0;
        while i < self.entries.len()
            invariant
                s == self.entries(),
                keys_sorted(s),
                0 <= i <= s.len(),
                forall|j: int| 0 <= j < i ==> s[j].0 != key@,
            decreases s.len() - i,
        {
            if str_eq(self.entries[i].0.as_str(), key) {
                proof {
                    lemma_entries_map_at(s, i as int);
                }
                return Some(&self.entries[i].1);
            }
            i = i + 1;
        }
        None
    }

    pub fn contains_key(&self, key: &str) -> (b: bool)
        ensures
            b == self@.contains_key(key@),
    {
        match self.get(key) {
            Some(_) => true,
            None => false,
        }
    }

    /// Sets the value at `key`, adding the key if it is new.
    pub fn insert(&mut self, key: String, value: V)
        ensures
            final(self)@ == old(self)@.insert(key@, value.deep_view()),
    {
        proof {
            use_type_invariant(&*self);
        }
        let ghost s = self.entries();
        let ghost e = (key@, value.deep_view());
        let mut i: usize = 0;
        while i < self.entries.len() && str_lt(self.entries[i].0.as_str(), key.as_str())
            invariant
                s == self.entries(),
                keys_sorted(s),
                0 <= i <= s.len(),
                forall|j: int| 0 <= j < i ==> key_lt(#[trigger] s[j].0, key@),
            decreases s.len() - i,
        {
            i = i + 1;
        }
        if i < self.entries.len() && str_eq(self.entries[i].0.as_str(), key.as_str()) {
            let ghost t = s.update(i as int, e);
            proof {
                assert(s[i as int].0 == key@);
                assert(has_key(s, key@));
                assert forall|a: int, b: int| 0 <= a < b < t.len() implies key_lt(
                    #[trigger] t[a].0,
                    #[trigger] t[b].0,
                ) by {
                    assert(s[a].0 == t[a].0 && s[b].0 == t[b].0);
                }
                assert forall|k: Seq<char>| #[trigger] has_key(t, k) <==> has_key(s, k) by {
                    if has_key(t, k) {
                        let j = choose|j: int| 0 <= j < t.len() && #[trigger] t[j].0 == k;
                        assert(s[j].0 == k);
                    }
                    if has_key(s, k) {
                        let j = choose|j: int| 0 <= j < s.len() && #[trigger] s[j].0 == k;
                        assert(t[j].0 == k);
                    }
                }
                assert forall|k: Seq<char>| #[trigger] entries_map(t).contains_key(k) implies entries_map(
                    t,
                )[k] == entries_map(s).insert(key@, value.deep_view())[k] by {
                    let j = choose|j: int| 0 <= j < t.len() && #[trigger] t[j].0 == k;
                    lemma_entries_map_at(t, j);
                    if j != i {
                        lemma_entries_map_at(s, j);
                        if k == key@ {
                            lemma_keys_unique(t, j, i as int);
                        }
                    }
                }
                assert(entries_map(t).dom() =~= entries_map(s).insert(key@, value.deep_view()).dom());
                assert(entries_map(t) =~= entries_map(s).insert(key@, value.deep_view()));
            }
            let mut v: Vec<(String, V)> = Vec::new();
            std::mem::swap(&mut v, &mut self.entries);
            v.set(i, (key, value));
            assert(v.deep_view() =~= t);
            self.entries = v;
        } else {
            let ghost t = s.insert(i as int, e);
            proof {
                if i < s.len() {
                    lemma_key_lt_order(s[i as int].0, key@, key@);
                }
                assert forall|a: int, b: int| 0 <= a < b < t.len() implies key_lt(
                    #[trigger] t[a].0,
                    #[trigger] t[b].0,
                ) by {
                    if b < i {
                    } else if b == i {
                    } else if a < i {
                        lemma_key_lt_order(t[a].0, key@, t[b].0);
                        lemma_key_lt_order(key@, s[i as int].0, t[b].0);
                        if b - 1 > i {
                            assert(key_lt(s[i as int].0, s[b - 1].0));
                        }
                    } else if a == i {
                        lemma_key_lt_order(key@, s[i as int].0, t[b].0);
                        if b - 1 > i {
                            assert(key_lt(s[i as int].0, s[b - 1].0));
                        }
                    } else {
                        assert(key_lt(s[a - 1].0, s[b - 1].0));
                    }
                }
                assert forall|k: Seq<char>| #[trigger] has_key(t, k) <==> (has_key(s, k) || k
                    == key@) by {
                    if has_key(t, k) {
                        let j = choose|j: int| 0 <= j < t.len() && #[trigger] t[j].0 == k;
                        if j < i {
                            assert(s[j].0 == k);
                        } else if j > i {
                            assert(s[j - 1].0 == k);
                        }
                    }
                    if has_key(s, k) {
                        let j = choose|j: int| 0 <= j < s.len() && #[trigger] s[j].0 == k;
                        if j < i {
                            assert(t[j].0 == k);
                        } else {
                            assert(t[j + 1].0 == k);
                        }
                    }
                    if k == key@ {
                        assert(t[i as int].0 == k);
                    }
                }
                assert forall|k: Seq<char>| #[trigger] entries_map(t).contains_key(k) implies entries_map(
                    t,
                )[k] == entries_map(s).insert(key@, value.deep_view())[k] by {
                    let j = choose|j: int| 0 <= j < t.len() && #[trigger] t[j].0 == k;
                    lemma_entries_map_at(t, j);
                    if j < i {
                        lemma_entries_map_at(s, j);
                        if k == key@ {
                            lemma_keys_unique(t, j, i as int);
                        }
                    } else if j > i {
                        assert(t[j] == s[j - 1]);
                        lemma_entries_map_at(s, j - 1);
                        if k == key@ {
                            lemma_keys_unique(t, j, i as int);
                        }
                    }
                }
                assert(entries_map(t).dom() =~= entries_map(s).insert(key@, value.deep_view()).dom());
                assert(entries_map(t) =~= entries_map(s).insert(key@, value.deep_view()));
            }
            let mut v: Vec<(String, V)> = Vec::new();
            std::mem::swap(&mut v, &mut self.entries);
            v.insert(i, (key, value));
            assert(v.deep_view() =~= t);
            self.entries = v;
        }
    }

    /// The keys, in increasing order.
    pub fn keys(&self) -> (ks: Vec<String>)
        ensures
            ks.len() == self.entries().len(),
            forall|i: int| 0 <= i < ks.len() ==> #[trigger] ks[i]@ == self.entries()[i].0,
            forall|i: int, j: int| 0 <= i < j < ks.len() ==> key_lt(#[trigger] ks[i]@, #[trigger] ks[j]@),
            forall|k: Seq<char>| self@.contains_key(k) <==> exists|i: int| 0 <= i < ks.len() && #[trigger] ks[i]@ == k,
    {
        proof {
            use_type_invariant(self);
        }
        let ghost s = self.entries();
        let mut ks: Vec<String> = Vec::new();
        let mut i: usize = 0;
        while i < self.entries.len()
            invariant
                s == self.entries(),
                keys_sorted(s),
                0 <= i <= s.len(),
                ks.len() == i,
                forall|j: int| 0 <= j < i ==> #[trigger] ks[j]@ == s[j].0,
            decreases s.len() - i,
        {
            ks.push(self.entries[i].0.clone());
            i = i + 1;
        }
        proof {
            assert forall|k: Seq<char>| self@.contains_key(k) implies exists|i: int| 0 <= i < ks.len() && #[trigger] ks[i]@ == k by {
                let j = choose|j: int| 0 <= j < s.len() && #[trigger] s[j].0 == k;
                assert(ks[j]@ == k);
            }
            assert forall|k: Seq<char>| (exists|i: int| 0 <= i < ks.len() && #[trigger] ks[i]@ == k) implies self@.contains_key(k) by {
                let j = choose|j: int| 0 <= j < ks.len() && #[trigger] ks[j]@ == k;
                assert(s[j].0 == k);
            }
        }
        ks
    }
}

impl<V: Duplicate> Table<V> {
    /// Copies every entry of `other` into `self`, replacing values at shared
    /// keys.
    pub fn overlay(&mut self, other: &Table<V>)
        ensures
            final(self)@ == old(self)@.union_prefer_right(other@),
    {
        let n = other.len();
        let ghost s = other.entries();
        let ghost base = self@;
        let mut i: usize = 0;
        while i < n
            invariant
                n == s.len(),
                s == other.entries(),
                keys_sorted(s),
                0 <= i <= n,
                self@ == base.union_prefer_right(entries_map(s.take(i as int))),
            decreases n - i,
        {
            let k = other.key_at(i).clone();
            let v = other.value_at(i).duplicate();
            self.insert(k, v);
            proof {
                lemma_entries_map_take(s, i as int);
                assert(self@ =~= base.union_prefer_right(entries_map(s.take(i as int + 1))));
            }
            i = i + 1;
        }
        proof {
            assert(s.take(n as int) =~= s);
        }
    }
}

impl<V: Duplicate> Duplicate for Table<V> {
    fn duplicate(&self) -> (r: Self) {
        let mut t: Table<V> = Table::new();
        t.overlay(self);
        proof {
            use_type_invariant(self);
            use_type_invariant(&t);
        }
        assert(t@ =~= self@);
        t
    }
}

} // verus!
