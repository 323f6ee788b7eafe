//! A map from paths to values that keeps its paths in `String`'s order, as the `BTreeMap`s of
//! what was listed and what was sent do, and serves as the lookup table a `HashMap` would be
//! for the per-file watches and refusals.

use vstd::prelude::*;
use crate::order::{compare_keys, key_before, lemma_key_asymmetric, lemma_key_irreflexive, lemma_key_total, lemma_key_transitive};

verus! {

/// Keys in strictly increasing order.
pub open spec fn sorted(keys: Seq<Seq<char>>) -> bool {
    forall|i: int, j: int| 0 <= i < j < keys.len() ==> key_before(#[trigger] keys[i], #[trigger] keys[j])
}

/// Where a pair holding key `k` is.
pub open spec fn slot_of<V>(pairs: Seq<(Seq<char>, V)>, k: Seq<char>) -> int {
    choose|i: int| 0 <= i < pairs.len() && #[trigger] pairs[i].0 == k
}

/// The map a sequence of key/value pairs with distinct keys stands for.
pub open spec fn map_of<V>(pairs: Seq<(Seq<char>, V)>) -> Map<Seq<char>, V> {
    Map::new(
        |k: Seq<char>| exists|i: int| 0 <= i < pairs.len() && #[trigger] pairs[i].0 == k,
        |k: Seq<char>| pairs[slot_of(pairs, k)].1,
    )
}

pub open spec fn keys_of<V>(pairs: Seq<(Seq<char>, V)>) -> Seq<Seq<char>> {
    Seq::new(pairs.len(), |i: int| pairs[i].0)
}

pub proof fn lemma_sorted_distinct(keys: Seq<Seq<char>>, i: int, j: int)
    requires
        sorted(keys),
        0 <= i < keys.len(),
        0 <= j < keys.len(),
        i != j,
    ensures
        keys[i] != keys[j],
{
    if i < j {
        assert(key_before(keys[i], keys[j]));
    } else {
        assert(key_before(keys[j], keys[i]));
    }
    lemma_key_irreflexive(keys[i]);
}

/// In a map with sorted keys, the pair at `i` is the one its key finds.
pub proof fn lemma_map_of_at<V>(pairs: Seq<(Seq<char>, V)>, i: int)
    requires
        sorted(keys_of(pairs)),
        0 <= i < pairs.len(),
    ensures
        map_of(pairs).contains_key(pairs[i].0),
        map_of(pairs)[pairs[i].0] == pairs[i].1,
{
    let k = pairs[i].0;
    assert(keys_of(pairs)[i] == k);
    assert(exists|c: int| 0 <= c < pairs.len() && #[trigger] pairs[c].0 == k);
    let c = slot_of(pairs, k);
    if c != i {
        lemma_sorted_distinct(keys_of(pairs), c, i);
        assert(keys_of(pairs)[c] == pairs[c].0);
    }
    assert(map_of(pairs).dom().contains(k));
    assert(map_of(pairs)[k] == pairs[c].1);
}

/// A key no pair holds is not in the map.
pub proof fn lemma_map_of_absent<V>(pairs: Seq<(Seq<char>, V)>, k: Seq<char>)
    requires
        forall|i: int| 0 <= i < pairs.len() ==> pairs[i].0 != k,
    ensures
        !map_of(pairs).contains_key(k),
{
}

/// Two maps over sorted pairs agree when each key of either is found in the other with the same
/// value.
pub proof fn lemma_map_of_ext<V>(pairs: Seq<(Seq<char>, V)>, m: Map<Seq<char>, V>)
    requires
        sorted(keys_of(pairs)),
        forall|i: int| 0 <= i < pairs.len() ==> m.contains_key(#[trigger] pairs[i].0) && m[pairs[i].0] == pairs[i].1,
        forall|k: Seq<char>| #[trigger] m.contains_key(k) ==> exists|i: int| 0 <= i < pairs.len() && #[trigger] pairs[i].0 == k,
    ensures
        map_of(pairs) == m,
{
    assert forall|k: Seq<char>| #[trigger] map_of(pairs).contains_key(k) implies m.contains_key(k) && map_of(pairs)[k] == m[k] by {
        let i = slot_of(pairs, k);
        lemma_map_of_at(pairs, i);
    }
    assert(map_of(pairs) =~= m);
}

/// Paths mapped to values, in `String`'s order.
pub struct PathMap<V> {
    entries: Vec<(String, V)>,
}

impl<V> PathMap<V> {
    /// The entries, in order, each key by its characters.
    pub closed spec fn pairs(&self) -> Seq<(Seq<char>, V)> {
        Seq::new(self.entries@.len(), |i: int| (self.entries@[i].0@, self.entries@[i].1))
    }

    /// The keys, in order.
    pub open spec fn keys(&self) -> Seq<Seq<char>> {
        keys_of(self.pairs())
    }

    #[verifier::type_invariant]
    closed spec fn inv(&self) -> bool {
        sorted(self.keys())
    }

    /// An empty map.
    pub fn new() -> (m: Self)
        ensures
            m.pairs().len() == 0,
            m@ == Map::<Seq<char>, V>::empty(),
    {
        let m = PathMap { entries: Vec::new() };
        assert(m@ =~= Map::<Seq<char>, V>::empty());
        m
    }

    /// The keys are in strictly increasing order.
    pub fn keys_sorted(&self)
        ensures
            sorted(self.keys()),
    {
        proof {
            use_type_invariant(self);
        }
    }

    /// How many entries there are.
    pub fn len(&self) -> (n: usize)
        ensures
            n == self.pairs().len(),
    {
        self.entries.len()
    }

    /// The key of the `i`th entry.
    pub fn key_at(&self, i: usize) -> (k: &String)
        requires
            i < self.pairs().len(),
        ensures
            k@ == self.pairs()[i as int].0,
    {
        &self.entries[i].0
    }

    /// The value of the `i`th entry.
    pub fn value_at(&self, i: usize) -> (v: &V)
        requires
            i < self.pairs().len(),
        ensures
            *v == self.pairs()[i as int].1,
    {
        &self.entries[i].1
    }

    /// Where `key` is, or would go: every key before the answer sorts before `key`, and none
    /// from it on does.
    fn position(&self, key: &str) -> (p: usize)
        ensures
            p <= self.pairs().len(),
            forall|j: int| 0 <= j < p ==> key_before(#[trigger] self.keys()[j], key@),
            forall|j: int| p <= j < self.pairs().len() ==> !key_before(#[trigger] self.keys()[j], key@),
    {
        proof {
            use_type_invariant(self);
        }
        let ghost keys = self.keys();
        let mut lo: usize = 0;
        let mut hi: usize = self.entries.len();
        while lo < hi
            invariant
                keys == self.keys(),
                sorted(keys),
                lo <= hi <= keys.len(),
                keys.len() == self.entries@.len(),
                forall|j: int| 0 <= j < lo ==> key_before(#[trigger] keys[j], key@),
                forall|j: int| hi <= j < keys.len() ==> !key_before(#[trigger] keys[j], key@),
            decreases hi - lo,
        {
            let mid = lo + (hi - lo) / 2;
            let c = compare_keys(self.entries[mid].0.as_str(), key);
            assert(keys[mid as int] == self.entries@[mid as int].0@);
            if c < 0 {
                proof {
                    assert forall|j: int| 0 <= j < mid + 1 implies key_before(#[trigger] keys[j], key@) by {
                        if j < mid {
                            assert(key_before(keys[j], keys[mid as int]));
                            lemma_key_transitive(keys[j], keys[mid as int], key@);
                        }
                    }
                }
                lo = mid + 1;
            } else {
                proof {
                    assert forall|j: int| mid <= j < keys.len() implies !key_before(#[trigger] keys[j], key@) by {
                        if j > mid {
                            assert(key_before(keys[mid as int], keys[j]));
                            if key_before(keys[j], key@) {
                                lemma_key_transitive(keys[mid as int], keys[j], key@);
                                lemma_key_asymmetric(keys[mid as int], key@);
                                if keys[mid as int] == key@ {
                                    lemma_key_irreflexive(key@);
                                }
                            }
                        } else {
                            if key_before(keys[mid as int], key@) {
                                if c == 0 {
                                    lemma_key_irreflexive(key@);
                                } else {
                                    lemma_key_asymmetric(keys[mid as int], key@);
                                }
                            }
                        }
                    }
                }
                hi = mid;
            }
        }
        lo
    }

    /// Where `key` is, if it is a key.
    pub fn find(&self, key: &str) -> (r: Option<usize>)
        ensures
            match r {
                Some(i) => i < self.pairs().len() && self.keys()[i as int] == key@,
                None => !self.keys().contains(key@),
            },
    {
        proof {
            use_type_invariant(self);
        }
        let p = self.position(key);
        if p < self.entries.len() && compare_keys(self.entries[p].0.as_str(), key) == 0 {
            assert(self.keys()[p as int] == self.entries@[p as int].0@);
            Some(p)
        } else {
            proof {
                if self.keys().contains(key@) {
                    let j = choose|j: int| 0 <= j < self.keys().len() && self.keys()[j] == key@;
                    if j < p {
                        lemma_key_irreflexive(key@);
                    } else if j > p {
                        assert(key_before(self.keys()[p as int], self.keys()[j]));
                        assert(self.keys()[p as int] == self.entries@[p as int].0@);
                        lemma_key_total(self.keys()[p as int], key@);
                    } else {
                        assert(self.keys()[p as int] == self.entries@[p as int].0@);
                    }
                }
            }
            None
        }
    }

    /// Whether `key` is a key.
    pub fn contains_key(&self, key: &str) -> (b: bool)
        ensures
            b == self@.contains_key(key@),
    {
        proof {
            use_type_invariant(self);
        }
        match self.find(key) {
            Some(i) => {
                proof {
                    lemma_map_of_at(self.pairs(), i as int);
                }
                true
            },
            None => {
                proof {
                    assert forall|i: int| 0 <= i < self.pairs().len() implies self.pairs()[i].0 != key@ by {
                        assert(self.keys()[i] == self.pairs()[i].0);
                    }
                }
                false
            },
        }
    }

    /// The value `key` maps to, if it is a key.
    pub fn get(&self, key: &str) -> (r: Option<&V>)
        ensures
            match r {
                Some(v) => self@.contains_key(key@) && *v == self@[key@],
                None => !self@.contains_key(key@),
            },
    {
        proof {
            use_type_invariant(self);
        }
        match self.find(key) {
            Some(i) => {
                proof {
                    lemma_map_of_at(self.pairs(), i as int);
                }
                Some(&self.entries[i].1)
            },
            None => {
                proof {
                    assert forall|i: int| 0 <= i < self.pairs().len() implies self.pairs()[i].0 != key@ by {
                        assert(self.keys()[i] == self.pairs()[i].0);
                    }
                }
                None
            },
        }
    }

    /// Appends an entry whose key sorts after every key already held.
    pub fn push(&mut self, key: String, value: V)
        requires
            old(self).keys().len() == 0 || key_before(old(self).keys().last(), key@),
        ensures
            final(self).pairs() == old(self).pairs().push((key@, value)),
    {
        proof {
            use_type_invariant(&*self);
        }
        let ghost before = self.pairs();
        let mut entries: Vec<(String, V)> = Vec::new();
        std::mem::swap(&mut entries, &mut self.entries);
        let ghost k = key@;
        entries.push((key, value));
        let ghost after = Seq::new(entries@.len(), |i: int| (entries@[i].0@, entries@[i].1));
        proof {
            assert(after =~= before.push((k, value)));
            let keys = keys_of(after);
            assert forall|i: int, j: int| 0 <= i < j < keys.len() implies key_before(#[trigger] keys[i], #[trigger] keys[j]) by {
                if j == keys.len() - 1 {
                    let last = keys_of(before).last();
                    if i < j - 1 {
                        assert(key_before(keys_of(before)[i], last));
                        lemma_key_transitive(keys[i], last, k);
                    }
                } else {
                    assert(keys[i] == keys_of(before)[i]);
                    assert(keys[j] == keys_of(before)[j]);
                }
            }
        }
        self.entries = entries;
    }

    /// Maps `key` to `value`, in place of what it mapped to before, if anything.
    pub fn insert(&mut self, key: String, value: V)
        ensures
            final(self)@ == old(self)@.insert(key@, value),
    {
        proof {
            use_type_invariant(&*self);
        }
        let p = self.position(key.as_str());
        let ghost before = self.pairs();
        let ghost old_map = self@;
        let ghost k = key@;
        let present = p < self.entries.len() && compare_keys(self.entries[p].0.as_str(), key.as_str()) == 0;
        let mut entries: Vec<(String, V)> = Vec::new();
        std::mem::swap(&mut entries, &mut self.entries);
        if present {
            entries.set(p, (key, value));
        } else {
            entries.insert(p, (key, value));
        }
        let ghost after = Seq::new(entries@.len(), |i: int| (entries@[i].0@, entries@[i].1));
        proof {
            let bk = keys_of(before);
            if present {
                assert(after =~= before.update(p as int, (k, value)));
                assert(bk[p as int] == k);
                assert(keys_of(after) =~= bk);
            } else {
                assert(after =~= before.insert(p as int, (k, value)));
                let keys = keys_of(after);
                if p < bk.len() {
                    assert(!key_before(bk[p as int], k));
                    assert(bk[p as int] != k);
                    lemma_key_total(bk[p as int], k);
                }
                assert forall|i: int, j: int| 0 <= i < j < keys.len() implies key_before(#[trigger] keys[i], #[trigger] keys[j]) by {
                    if i < p && j < p {
                        assert(keys[i] == bk[i] && keys[j] == bk[j]);
                    } else if i < p && j == p {
                        assert(keys[i] == bk[i]);
                    } else if i < p {
                        assert(keys[i] == bk[i] && keys[j] == bk[j - 1]);
                        assert(key_before(bk[i], k));
                        assert(key_before(k, bk[p as int]));
                        lemma_key_transitive(bk[i], k, bk[p as int]);
                        if j - 1 > p {
                            lemma_key_transitive(bk[i], bk[p as int], bk[j - 1]);
                        }
                    } else if i == p {
                        assert(keys[j] == bk[j - 1]);
                        if j - 1 > p {
                            lemma_key_transitive(k, bk[p as int], bk[j - 1]);
                        }
                    } else {
                        assert(keys[i] == bk[i - 1] && keys[j] == bk[j - 1]);
                    }
                }
            }
            assert forall|i: int| 0 <= i < after.len() implies old_map.insert(k, value).contains_key(#[trigger] after[i].0)
                && old_map.insert(k, value)[after[i].0] == after[i].1 by {
                if after[i].0 != k {
                    let oi = if present || i < p { i } else { i - 1 };
                    assert(after[i] == before[oi]);
                    lemma_map_of_at(before, oi);
                } else if present && i != p {
                    lemma_sorted_distinct(keys_of(after), i, p as int);
                } else if !present && i != p {
                    lemma_sorted_distinct(keys_of(after), i, p as int);
                }
            }
            assert forall|kk: Seq<char>| #[trigger] old_map.insert(k, value).contains_key(kk) implies exists|i: int| 0 <= i < after.len() && #[trigger] after[i].0 == kk by {
                if kk == k {
                    assert(after[p as int].0 == k);
                } else {
                    let oi = slot_of(before, kk);
                    let ni = if present || oi < p { oi } else { oi + 1 };
                    assert(after[ni].0 == kk);
                }
            }
            lemma_map_of_ext(after, old_map.insert(k, value));
        }
        self.entries = entries;
    }

    /// Drops `key` and what it maps to, if it is a key.
    pub fn remove(&mut self, key: &str)
        ensures
            final(self)@ == old(self)@.remove(key@),
    {
        proof {
            use_type_invariant(&*self);
        }
        let ghost before = self.pairs();
        let ghost old_map = self@;
        match self.find(key) {
            None => {
                proof {
                    assert forall|i: int| 0 <= i < before.len() implies before[i].0 != key@ by {
                        assert(keys_of(before)[i] == before[i].0);
                    }
                    assert(old_map.remove(key@) =~= old_map);
                }
            },
            Some(p) => {
                let mut entries: Vec<(String, V)> = Vec::new();
                std::mem::swap(&mut entries, &mut self.entries);
                let _ = entries.remove(p);
                let ghost after = Seq::new(entries@.len(), |i: int| (entries@[i].0@, entries@[i].1));
                proof {
                    let bk = keys_of(before);
                    assert(after =~= before.remove(p as int));
                    let keys = keys_of(after);
                    assert forall|i: int, j: int| 0 <= i < j < keys.len() implies key_before(#[trigger] keys[i], #[trigger] keys[j]) by {
                        let oi = if i < p { i } else { i + 1 };
                        let oj = if j < p { j } else { j + 1 };
                        assert(keys[i] == bk[oi] && keys[j] == bk[oj]);
                    }
                    assert forall|i: int| 0 <= i < after.len() implies old_map.remove(key@).contains_key(#[trigger] after[i].0)
                        && old_map.remove(key@)[after[i].0] == after[i].1 by {
                        let oi = if i < p { i } else { i + 1 };
                        assert(after[i] == before[oi]);
                        lemma_sorted_distinct(bk, oi, p as int);
                        lemma_map_of_at(before, oi);
                    }
                    assert forall|kk: Seq<char>| #[trigger] old_map.remove(key@).contains_key(kk) implies exists|i: int| 0 <= i < after.len() && #[trigger] after[i].0 == kk by {
                        let oi = slot_of(before, kk);
                        assert(oi != p);
                        let ni = if oi < p { oi } else { oi - 1 };
                        assert(after[ni].0 == kk);
                    }
                    lemma_map_of_ext(after, old_map.remove(key@));
                }
                self.entries = entries;
            },
        }
    }
}

impl<V> View for PathMap<V> {
    type V = Map<Seq<char>, V>;

    open spec fn view(&self) -> Map<Seq<char>, V> {
        map_of(self.pairs())
    }
}

} // verus!
