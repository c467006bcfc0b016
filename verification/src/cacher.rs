//! A cache: what is known under each key. Nothing is ever evicted. The
//! vulnerability cache keeps the findings about each package, by identity.

use crate::graph::{node_views, Node};
use crate::key_map::{as_map, lemma_position_from, position_from, with_entry, KeyMap};
use crate::purl::{Purl, PurlView};
use crate::server::{VulnerabilityVersionInfo, VulnerabilityVersionInfoView};
use vstd::prelude::*;

verus! {

/// The keys of `keys` that `known` does not hold, in their order.
pub open spec fn missing_spec<K>(known: Set<K>, keys: Seq<K>) -> Seq<K>
    decreases keys.len(),
{
    if keys.len() == 0 {
        Seq::empty()
    } else if known.contains(keys.last()) {
        missing_spec(known, keys.drop_last())
    } else {
        missing_spec(known, keys.drop_last()).push(keys.last())
    }
}

/// The cache after each of `values` was stored under its own identity, in
/// order: a later value for an identity replaces an earlier one.
pub open spec fn put_many_spec(
    cache: Map<PurlView, VulnerabilityVersionInfoView>,
    values: Seq<VulnerabilityVersionInfoView>,
) -> Map<PurlView, VulnerabilityVersionInfoView>
    decreases values.len(),
{
    if values.len() == 0 {
        cache
    } else {
        put_many_spec(cache, values.drop_last()).insert(values.last().purl, values.last())
    }
}

/// The identities under which `values` are stored.
pub open spec fn purls_of(values: Seq<VulnerabilityVersionInfoView>) -> Set<PurlView> {
    Set::new(|k: PurlView| exists|i: int| 0 <= i < values.len() && values[i].purl == k)
}

/// The views of `values`, in order.
pub open spec fn info_views(values: Seq<VulnerabilityVersionInfo>) -> Seq<
    VulnerabilityVersionInfoView,
> {
    values.map_values(|v: VulnerabilityVersionInfo| v@)
}

/// The entries as views of their values.
pub open spec fn entry_info_views<K, D: View>(s: Seq<(K, D)>) -> Seq<(K, D::V)> {
    Seq::new(s.len(), |i: int| (s[i].0, s[i].1@))
}

/// What the cache holds for `keys`: an entry for each key that it holds, in
/// the order in which the keys first come.
pub open spec fn found_spec<K, V>(cache: Map<K, V>, keys: Seq<K>) -> Seq<(K, V)>
    decreases keys.len(),
{
    if keys.len() == 0 {
        Seq::empty()
    } else if cache.dom().contains(keys.last()) {
        with_entry(found_spec(cache, keys.drop_last()), keys.last(), cache[keys.last()])
    } else {
        found_spec(cache, keys.drop_last())
    }
}

proof fn lemma_info_position<K, D: View>(s: Seq<(K, D)>, k: K, from: int)
    requires
        0 <= from,
    ensures
        position_from(entry_info_views(s), k, from) == position_from(s, k, from),
    decreases s.len() - from,
{
    if from < s.len() && s[from].0 != k {
        lemma_info_position(s, k, from + 1);
    }
}

/// A new entry among the entries is a new entry among their views.
proof fn lemma_info_entry<K, D: View>(s: Seq<(K, D)>, k: K, v: D)
    ensures
        entry_info_views(with_entry(s, k, v)) == with_entry(entry_info_views(s), k, v@),
{
    lemma_info_position(s, k, 0);
    lemma_position_from(s, k, 0);
    assert(entry_info_views(with_entry(s, k, v)) =~= with_entry(entry_info_views(s), k, v@));
}

/// A value that a cache can keep: it has a view, and it can be copied.
pub trait Cacheable: View + Sized {
    /// A copy of the value.
    fn duplicate(&self) -> (r: Self)
        ensures
            r@ == self@,
    ;
}

impl Cacheable for VulnerabilityVersionInfo {
    fn duplicate(&self) -> (r: Self) {
        self.clone()
    }
}

/// A store of values of `Data` under keys of `Ident`. Keys and values are
/// told apart by their views.
pub struct Cacher<Ident: Node, Data: Cacheable> {
    map: KeyMap<Ident, Data>,
}

/// The vulnerability cache: the findings about each package, by identity.
pub type VulnerabilityCache = Cacher<Purl, VulnerabilityVersionInfo>;

impl<Ident: Node, Data: Cacheable> View for Cacher<Ident, Data> {
    type V = Map<Ident::V, Data::V>;

    closed spec fn view(&self) -> Map<Ident::V, Data::V> {
        Map::new(
            |k: Ident::V| as_map(self.map@).dom().contains(k),
            |k: Ident::V| as_map(self.map@)[k]@,
        )
    }
}

impl<Ident: Node, Data: Cacheable> Cacher<Ident, Data> {
    pub fn new() -> (c: Self)
        ensures
            c@ == Map::<Ident::V, Data::V>::empty(),
    {
        let c = Cacher { map: KeyMap::new() };
        assert(c@ =~= Map::<Ident::V, Data::V>::empty());
        c
    }

    /// Whether the cache holds `key`.
    pub fn contains(&self, key: &Ident) -> (b: bool)
        ensures
            b == self@.dom().contains(key@),
    {
        self.map.contains_key(key)
    }

    /// What the cache holds for `key`.
    pub fn lookup(&self, key: &Ident) -> (r: Option<&Data>)
        ensures
            match r {
                Some(v) => self@.dom().contains(key@) && self@[key@] == v@,
                None => !self@.dom().contains(key@),
            },
    {
        self.map.get(key)
    }

    /// The entries of the cache for those of `keys` that it holds, in the
    /// order in which the keys first come.
    pub fn get(&self, keys: &[Ident]) -> (r: Option<KeyMap<Ident, Data>>)
        ensures
            r matches Some(found) && entry_info_views(found@) == found_spec(
                self@,
                node_views(keys@),
            ),
    {
        let mut found: KeyMap<Ident, Data> = KeyMap::new();
        let ghost kv = node_views(keys@);
        let mut i: usize = 0;
        assert(kv.take(0) == Seq::<Ident::V>::empty());
        assert(entry_info_views(found@) == Seq::<(Ident::V, Data::V)>::empty());
        while i < keys.len()
            invariant
                i <= keys.len(),
                kv == node_views(keys@),
                entry_info_views(found@) == found_spec(self@, kv.take(i as int)),
            decreases keys.len() - i,
        {
            assert(kv.take(i as int + 1).drop_last() == kv.take(i as int));
            assert(kv.take(i as int + 1).last() == keys@[i as int]@);
            match self.map.get(&keys[i]) {
                Some(value) => {
                    let copy = value.duplicate();
                    proof {
                        lemma_info_entry(found@, keys@[i as int]@, copy);
                    }
                    found.insert(keys[i].duplicate(), copy);
                },
                None => {},
            }
            i += 1;
        }
        assert(kv.take(keys.len() as int) == kv);
        Some(found)
    }

    /// Those of `keys` that the cache does not hold, in their order.
    pub fn find_not_found_keys(&self, keys: &[Ident]) -> (r: Vec<Ident>)
        ensures
            node_views(r@) == missing_spec(self@.dom(), node_views(keys@)),
    {
        let mut missing: Vec<Ident> = Vec::new();
        let mut i: usize = 0;
        assert(node_views(keys@).take(0) == Seq::<Ident::V>::empty());
        assert(node_views(missing@) == Seq::<Ident::V>::empty());
        while i < keys.len()
            invariant
                i <= keys.len(),
                node_views(missing@) == missing_spec(
                    self@.dom(),
                    node_views(keys@).take(i as int),
                ),
            decreases keys.len() - i,
        {
            let ghost before = node_views(keys@).take(i as int);
            let ghost after = node_views(keys@).take(i as int + 1);
            assert(after.drop_last() == before);
            assert(after.last() == keys@[i as int]@);
            if !self.map.contains_key(&keys[i]) {
                let ghost old_missing = node_views(missing@);
                missing.push(keys[i].duplicate());
                assert(node_views(missing@) == old_missing.push(keys@[i as int]@));
            }
            i += 1;
        }
        assert(node_views(keys@).take(keys.len() as int) == node_views(keys@));
        missing
    }

    /// Stores `value` under `key`, in place of what was there.
    pub fn put(&mut self, key: Ident, value: Data)
        ensures
            final(self)@ == old(self)@.insert(key@, value@),
    {
        let mut map: KeyMap<Ident, Data> = KeyMap::new();
        std::mem::swap(&mut map, &mut self.map);
        map.insert(key, value);
        self.map = map;
        assert(self@ =~= old(self)@.insert(key@, value@));
    }

}

impl Cacher<Purl, VulnerabilityVersionInfo> {
    /// Stores each of `values` under its own identity, in order.
    pub fn put_many(&mut self, values: Vec<VulnerabilityVersionInfo>)
        ensures
            final(self)@ == put_many_spec(old(self)@, info_views(values@)),
    {
        let mut i: usize = 0;
        assert(info_views(values@).take(0) == Seq::<VulnerabilityVersionInfoView>::empty());
        while i < values.len()
            invariant
                i <= values.len(),
                self@ == put_many_spec(old(self)@, info_views(values@).take(i as int)),
            decreases values.len() - i,
        {
            let ghost before = info_views(values@).take(i as int);
            let ghost after = info_views(values@).take(i as int + 1);
            assert(after.drop_last() == before);
            assert(after.last() == values@[i as int]@);
            let value = values[i].clone();
            let key = value.purl.clone();
            self.put(key, value);
            i += 1;
        }
        assert(info_views(values@).take(values.len() as int) == info_views(values@));
    }
}

/// The value that `values` holds last for `k`.
pub open spec fn latest(values: Seq<VulnerabilityVersionInfoView>, k: PurlView) -> Option<
    VulnerabilityVersionInfoView,
>
    decreases values.len(),
{
    if values.len() == 0 {
        None
    } else if values.last().purl == k {
        Some(values.last())
    } else {
        latest(values.drop_last(), k)
    }
}

/// `values` holds a value for `k` exactly where `k` is the identity of one of
/// them.
pub proof fn lemma_latest(values: Seq<VulnerabilityVersionInfoView>, k: PurlView)
    ensures
        latest(values, k) is Some <==> purls_of(values).contains(k),
    decreases values.len(),
{
    if values.len() > 0 {
        let front = values.drop_last();
        lemma_latest(front, k);
        if values.last().purl == k {
            assert(values[values.len() - 1].purl == k);
        } else {
            if purls_of(front).contains(k) {
                let i = choose|i: int| 0 <= i < front.len() && front[i].purl == k;
                assert(values[i].purl == k);
            }
            if purls_of(values).contains(k) {
                let i = choose|i: int| 0 <= i < values.len() && values[i].purl == k;
                assert(front[i].purl == k);
            }
        }
    }
}

/// What the cache holds after `values` were stored: for an identity among
/// them its latest value, for any other what it held before.
pub proof fn lemma_put_many(
    cache: Map<PurlView, VulnerabilityVersionInfoView>,
    values: Seq<VulnerabilityVersionInfoView>,
)
    ensures
        put_many_spec(cache, values) == Map::new(
            |k: PurlView| cache.dom().contains(k) || latest(values, k) is Some,
            |k: PurlView|
                match latest(values, k) {
                    Some(v) => v,
                    None => cache[k],
                },
        ),
    decreases values.len(),
{
    let described = Map::new(
        |k: PurlView| cache.dom().contains(k) || latest(values, k) is Some,
        |k: PurlView|
            match latest(values, k) {
                Some(v) => v,
                None => cache[k],
            },
    );
    if values.len() > 0 {
        lemma_put_many(cache, values.drop_last());
    }
    assert(put_many_spec(cache, values) =~= described);
}

/// Idempotence: to store the same values a second time changes nothing.
pub proof fn law_put_many_idempotent(
    cache: Map<PurlView, VulnerabilityVersionInfoView>,
    values: Seq<VulnerabilityVersionInfoView>,
)
    ensures
        put_many_spec(put_many_spec(cache, values), values) == put_many_spec(cache, values),
{
    let once = put_many_spec(cache, values);
    lemma_put_many(cache, values);
    lemma_put_many(once, values);
    assert(put_many_spec(once, values) =~= once);
}

/// A key is reported missing exactly where it was asked for and is not known.
pub proof fn lemma_missing<K>(known: Set<K>, keys: Seq<K>, k: K)
    ensures
        missing_spec(known, keys).contains(k) <==> (keys.contains(k) && !known.contains(k)),
    decreases keys.len(),
{
    if keys.len() > 0 {
        let front = keys.drop_last();
        let last = keys.last();
        lemma_missing(known, front, k);
        let r = missing_spec(known, keys);
        let rf = missing_spec(known, front);
        assert(keys.contains(k) <==> (front.contains(k) || k == last)) by {
            if front.contains(k) {
                let j = choose|j: int| 0 <= j < front.len() && front[j] == k;
                assert(keys[j] == k);
            }
            if k == last {
                assert(keys[keys.len() - 1] == k);
            }
            if keys.contains(k) && k != last {
                let j = choose|j: int| 0 <= j < keys.len() && keys[j] == k;
                assert(front[j] == k);
            }
        }
        if !known.contains(last) {
            assert(r == rf.push(last));
            assert(r.contains(k) <==> (rf.contains(k) || k == last)) by {
                if rf.contains(k) {
                    let j = choose|j: int| 0 <= j < rf.len() && rf[j] == k;
                    assert(r[j] == k);
                }
                if k == last {
                    assert(r[r.len() - 1] == k);
                }
                if r.contains(k) && k != last {
                    let j = choose|j: int| 0 <= j < r.len() && r[j] == k;
                    assert(rf[j] == k);
                }
            }
        }
    }
}

/// Missing keys after a refill: no identity among the stored values is
/// reported missing, and every other key that was asked for is, unless the
/// cache held it before.
pub proof fn law_missing_after_put_many(
    cache: Map<PurlView, VulnerabilityVersionInfoView>,
    values: Seq<VulnerabilityVersionInfoView>,
    keys: Seq<PurlView>,
    k: PurlView,
)
    ensures
        purls_of(values).contains(k) ==> !missing_spec(
            put_many_spec(cache, values).dom(),
            keys,
        ).contains(k),
        missing_spec(put_many_spec(cache, values).dom(), keys).contains(k) <==> (keys.contains(k)
            && !purls_of(values).contains(k) && !cache.dom().contains(k)),
{
    lemma_put_many(cache, values);
    lemma_latest(values, k);
    lemma_missing(put_many_spec(cache, values).dom(), keys, k);
}

/// What is found holds a key exactly where the key was asked for and the
/// cache holds it, and holds for it what the cache holds.
pub proof fn law_found<K, V>(cache: Map<K, V>, keys: Seq<K>, k: K)
    ensures
        as_map(found_spec(cache, keys)).dom().contains(k) <==> (keys.contains(k)
            && cache.dom().contains(k)),
        as_map(found_spec(cache, keys)).dom().contains(k) ==> as_map(found_spec(cache, keys))[k]
            == cache[k],
    decreases keys.len(),
{
    if keys.len() > 0 {
        let front = keys.drop_last();
        let last = keys.last();
        law_found(cache, front, k);
        assert(keys.contains(k) <==> (front.contains(k) || k == last)) by {
            if front.contains(k) {
                let j = choose|j: int| 0 <= j < front.len() && front[j] == k;
                assert(keys[j] == k);
            }
            if k == last {
                assert(keys[keys.len() - 1] == k);
            }
            if keys.contains(k) && k != last {
                let j = choose|j: int| 0 <= j < keys.len() && keys[j] == k;
                assert(front[j] == k);
            }
        }
        if cache.dom().contains(last) {
            crate::key_map::lemma_with_entry(found_spec(cache, front), last, cache[last]);
        }
    } else {
        assert(crate::key_map::position(found_spec(cache, keys), k) is None);
    }
}

} // verus!
