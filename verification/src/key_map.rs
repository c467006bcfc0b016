//! A map that keeps its entries in the order in which their keys first came.
//! Keys are told apart by their views.

use crate::graph::Node;
use crate::purl::Purl;
use vstd::prelude::*;

verus! {

/// The index of the first entry of `s` from `from` on whose key is `k`.
pub open spec fn position_from<K, V>(s: Seq<(K, V)>, k: K, from: int) -> Option<int>
    decreases s.len() - from,
{
    if from < 0 || from >= s.len() {
        None
    } else if s[from].0 == k {
        Some(from)
    } else {
        position_from(s, k, from + 1)
    }
}

/// The index of the first entry of `s` whose key is `k`.
pub open spec fn position<K, V>(s: Seq<(K, V)>, k: K) -> Option<int> {
    position_from(s, k, 0)
}

/// Whether no key stands twice in `s`.
pub open spec fn distinct_keys<K, V>(s: Seq<(K, V)>) -> bool {
    forall|i: int, j: int| 0 <= i < j < s.len() ==> s[i].0 != s[j].0
}

/// `s` as a mathematical map: each key with the value of its first entry.
pub open spec fn as_map<K, V>(s: Seq<(K, V)>) -> Map<K, V> {
    Map::new(|k: K| position(s, k) is Some, |k: K| s[position(s, k)->Some_0].1)
}

/// `s` after `k` was given the value `v`: in place where `k` has an entry, at
/// the end where it has none.
pub open spec fn with_entry<K, V>(s: Seq<(K, V)>, k: K, v: V) -> Seq<(K, V)> {
    match position(s, k) {
        Some(i) => s.update(i, (k, v)),
        None => s.push((k, v)),
    }
}

/// What `position_from` returns is the least index at or after `from` that
/// holds `k`, and `None` says that there is none.
pub proof fn lemma_position_from<K, V>(s: Seq<(K, V)>, k: K, from: int)
    requires
        0 <= from,
    ensures
        match position_from(s, k, from) {
            Some(i) => from <= i < s.len() && s[i].0 == k && forall|j: int|
                from <= j < i ==> s[j].0 != k,
            None => forall|j: int| from <= j < s.len() ==> s[j].0 != k,
        },
    decreases s.len() - from,
{
    if from < s.len() && s[from].0 != k {
        lemma_position_from(s, k, from + 1);
    }
}

/// Where `k` stands in `s` with the new entry, and where every other key
/// stands.
pub proof fn lemma_with_entry<K, V>(s: Seq<(K, V)>, k: K, v: V)
    ensures
        as_map(with_entry(s, k, v)) == as_map(s).insert(k, v),
        distinct_keys(s) ==> distinct_keys(with_entry(s, k, v)),
{
    let t = with_entry(s, k, v);
    lemma_position_from(s, k, 0);
    lemma_position_from(t, k, 0);
    assert(t.len() >= s.len());
    assert forall|j: int| 0 <= j < s.len() implies (#[trigger] t[j]).0 == s[j].0 by {}
    assert forall|q: K| q != k implies position(t, q) == position(s, q) by {
        lemma_position_from(s, q, 0);
        lemma_position_from(t, q, 0);
        match position(s, q) {
            Some(i) => {
                assert(t[i].0 == q);
            },
            None => {
                if position(t, q) is Some {
                    let i = position(t, q)->Some_0;
                    assert(t[i].0 == q);
                    assert(i < s.len());
                    assert(s[i].0 == q);
                }
            },
        }
    }
    match position(s, k) {
        Some(i) => {
            assert(t[i].0 == k);
            assert(position(t, k) == Some(i));
        },
        None => {
            assert(t[s.len() as int].0 == k);
            assert(position(t, k) == Some(s.len() as int));
        },
    }
    assert forall|q: K|
        as_map(t).dom().contains(q) <==> as_map(s).insert(k, v).dom().contains(q) by {}
    assert forall|q: K| as_map(t).dom().contains(q) implies as_map(t)[q] == as_map(s).insert(
        k,
        v,
    )[q] by {
        lemma_position_from(s, q, 0);
    }
    assert(as_map(t) =~= as_map(s).insert(k, v));
    if distinct_keys(s) {
        assert forall|i: int, j: int| 0 <= i < j < t.len() implies t[i].0 != t[j].0 by {
            if j < s.len() {
                assert(s[i].0 != s[j].0);
            }
        }
    }
}

/// The entries as views of their keys, with their values.
pub open spec fn entry_views<K: View, V>(entries: Seq<(K, V)>) -> Seq<(K::V, V)> {
    Seq::new(entries.len(), |i: int| (entries[i].0@, entries[i].1))
}

/// A map from keys of `K` to values of `V`.
pub struct KeyMap<K: Node, V> {
    entries: Vec<(K, V)>,
}

/// A map from package identities to values of `V`.
pub type PurlMap<V> = KeyMap<Purl, V>;

impl<K: Node, V> View for KeyMap<K, V> {
    type V = Seq<(K::V, V)>;

    /// The entries, in order.
    closed spec fn view(&self) -> Seq<(K::V, V)> {
        entry_views(self.entries@)
    }
}

impl<K: Node, V> KeyMap<K, V> {
    #[verifier::type_invariant]
    spec fn no_key_twice(&self) -> bool {
        distinct_keys(self@)
    }

    pub fn new() -> (m: Self)
        ensures
            m@ == Seq::<(K::V, V)>::empty(),
    {
        KeyMap { entries: Vec::new() }
    }

    /// The number of entries. No key stands in two of them.
    pub fn len(&self) -> (n: usize)
        ensures
            n == self@.len(),
            distinct_keys(self@),
    {
        proof {
            use_type_invariant(self);
        }
        self.entries.len()
    }

    pub fn is_empty(&self) -> (b: bool)
        ensures
            b == (self@.len() == 0),
    {
        self.entries.len() == 0
    }

    /// The index of the entry of `key`.
    pub fn index_of(&self, key: &K) -> (r: Option<usize>)
        ensures
            match r {
                Some(i) => position(self@, key@) == Some(i as int),
                None => position(self@, key@) is None,
            },
    {
        let mut i: usize = 0;
        while i < self.entries.len()
            invariant
                i <= self.entries.len(),
                position(self@, key@) == position_from(self@, key@, i as int),
            decreases self.entries.len() - i,
        {
            if self.entries[i].0.same(key) {
                return Some(i);
            }
            i += 1;
        }
        None
    }

    pub fn contains_key(&self, key: &K) -> (b: bool)
        ensures
            b == as_map(self@).dom().contains(key@),
    {
        self.index_of(key).is_some()
    }

    /// The value of `key`.
    pub fn get(&self, key: &K) -> (r: Option<&V>)
        ensures
            match r {
                Some(v) => as_map(self@).dom().contains(key@) && as_map(self@)[key@] == *v,
                None => !as_map(self@).dom().contains(key@),
            },
    {
        proof {
            lemma_position_from(self@, key@, 0);
        }
        match self.index_of(key) {
            Some(i) => Some(&self.entries[i].1),
            None => None,
        }
    }

    /// The key of the entry at `i`.
    pub fn key_at(&self, i: usize) -> (k: &K)
        requires
            i < self@.len(),
        ensures
            k@ == self@[i as int].0,
    {
        &self.entries[i].0
    }

    /// The value of the entry at `i`.
    pub fn value_at(&self, i: usize) -> (v: &V)
        requires
            i < self@.len(),
        ensures
            *v == self@[i as int].1,
    {
        &self.entries[i].1
    }

    /// Gives `key` the value `value`, in place of the value it had, if any.
    pub fn insert(&mut self, key: K, value: V)
        ensures
            final(self)@ == with_entry(old(self)@, key@, value),
            as_map(final(self)@) == as_map(old(self)@).insert(key@, value),
    {
        proof {
            use_type_invariant(&*self);
            lemma_with_entry(self@, key@, value);
            lemma_position_from(self@, key@, 0);
        }
        let ghost before = self@;
        let found = self.index_of(&key);
        let mut entries: Vec<(K, V)> = Vec::new();
        std::mem::swap(&mut entries, &mut self.entries);
        match found {
            Some(i) => {
                entries.set(i, (key, value));
            },
            None => {
                entries.push((key, value));
            },
        }
        assert(entry_views(entries@) =~= with_entry(before, key@, value));
        self.entries = entries;
    }

    /// Takes every entry out.
    pub fn clear(&mut self)
        ensures
            final(self)@ == Seq::<(K::V, V)>::empty(),
    {
        self.entries = Vec::new();
    }
}

} // verus!
