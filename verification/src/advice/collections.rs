//! Finite sets and maps over exactly comparable keys, used by the abstract state.
use vstd::prelude::*;

use super::ir::VarKey;
use crate::span::SourceSpan;

verus! {

/// A key type whose executable comparison is exact equality.
pub trait ExactKey: Copy + Sized {
    /// Return whether two keys are equal.
    fn same_key(&self, other: &Self) -> (r: bool)
        ensures
            r == (*self == *other),
    ;
}

/// A value type with an abstract view that can be copied and compared by that view.
pub trait AbstractValue: View + Sized {
    /// Return a value with the same view.
    fn duplicate(&self) -> (r: Self)
        ensures
            r@ == self@,
    ;

    /// Return whether two values have the same view.
    fn same_value(&self, other: &Self) -> (r: bool)
        ensures
            r == (self@ == other@),
    ;
}

impl ExactKey for u32 {
    fn same_key(&self, other: &Self) -> (r: bool) {
        *self == *other
    }
}

impl ExactKey for usize {
    fn same_key(&self, other: &Self) -> (r: bool) {
        *self == *other
    }
}

impl ExactKey for VarKey {
    fn same_key(&self, other: &Self) -> (r: bool) {
        self.index == other.index
    }
}

impl ExactKey for SourceSpan {
    fn same_key(&self, other: &Self) -> (r: bool) {
        self.source_id == other.source_id && self.start == other.start && self.end == other.end
    }
}

impl View for VarKey {
    type V = VarKey;

    open spec fn view(&self) -> VarKey {
        *self
    }
}

impl AbstractValue for VarKey {
    fn duplicate(&self) -> (r: Self) {
        *self
    }

    fn same_value(&self, other: &Self) -> (r: bool) {
        self.index == other.index
    }
}

/// A finite set of keys.
#[derive(Debug)]
pub struct KeySet<K> {
    items: Vec<K>,
}

impl<K: ExactKey> View for KeySet<K> {
    type V = Set<K>;

    closed spec fn view(&self) -> Set<K> {
        self.items@.to_set()
    }
}

fn seq_contains<K: ExactKey>(items: &Vec<K>, k: &K) -> (r: bool)
    ensures
        r == items@.contains(*k),
{
    let mut i: usize = 0;
    while i < items.len()
        invariant
            i <= items@.len(),
            forall|j: int| 0 <= j < i ==> items@[j] != *k,
        decreases items@.len() - i,
    {
        if items[i].same_key(k) {
            return true;
        }
        i = i + 1;
    }
    false
}

impl<K: ExactKey> KeySet<K> {
    /// The empty set.
    pub fn empty() -> (r: Self)
        ensures
            r@ == Set::<K>::empty(),
    {
        let r = KeySet { items: Vec::new() };
        assert(r@ =~= Set::<K>::empty());
        r
    }

    /// The set holding only `k`.
    pub fn singleton(k: K) -> (r: Self)
        ensures
            r@ == Set::<K>::empty().insert(k),
    {
        let mut items = Vec::new();
        items.push(k);
        let r = KeySet { items };
        assert(r@ =~= Set::<K>::empty().insert(k)) by {
            assert(items@[0] == k);
        }
        r
    }

    /// Return whether `k` is in the set.
    pub fn contains(&self, k: &K) -> (r: bool)
        ensures
            r == self@.contains(*k),
    {
        seq_contains(&self.items, k)
    }

    /// Add `k` to the set.
    pub fn insert(&mut self, k: K)
        ensures
            final(self)@ == old(self)@.insert(k),
    {
        if !seq_contains(&self.items, &k) {
            let ghost prev = self.items@;
            self.items.push(k);
            assert(self.items@.to_set() =~= prev.to_set().insert(k)) by {
                assert forall|x: K| self.items@.contains(x) <==> (prev.contains(x) || x == k) by {
                    if self.items@.contains(x) {
                        let i = choose|i: int| 0 <= i < self.items@.len() && self.items@[i] == x;
                        if i < prev.len() {
                            assert(prev[i] == x);
                        }
                    }
                    if prev.contains(x) {
                        let i = choose|i: int| 0 <= i < prev.len() && prev[i] == x;
                        assert(self.items@[i] == x);
                    }
                    if x == k {
                        assert(self.items@[prev.len() as int] == k);
                    }
                }
            }
        } else {
            assert(self.items@.to_set() =~= self.items@.to_set().insert(k));
        }
    }

    /// Return the elements of the set.
    pub fn items(&self) -> (r: &[K])
        ensures
            r@.to_set() == self@,
    {
        self.items.as_slice()
    }

    /// Return a set with the same elements.
    pub fn duplicate(&self) -> (r: Self)
        ensures
            r@ == self@,
    {
        let mut out = KeySet::empty();
        let mut i: usize = 0;
        while i < self.items.len()
            invariant
                i <= self.items@.len(),
                out@ == self.items@.take(i as int).to_set(),
            decreases self.items@.len() - i,
        {
            out.insert(self.items[i]);
            proof {
                lemma_take_to_set_step(self.items@, i as int);
            }
            i = i + 1;
        }
        assert(self.items@.take(i as int) =~= self.items@);
        out
    }

    /// The elements present in either set.
    pub fn union(&self, other: &Self) -> (r: Self)
        ensures
            r@ == self@.union(other@),
    {
        let mut out = self.duplicate();
        let mut i: usize = 0;
        while i < other.items.len()
            invariant
                i <= other.items@.len(),
                out@ == self@.union(other.items@.take(i as int).to_set()),
            decreases other.items@.len() - i,
        {
            out.insert(other.items[i]);
            proof {
                lemma_take_to_set_step(other.items@, i as int);
                assert(out@ =~= self@.union(other.items@.take(i + 1).to_set()));
            }
            i = i + 1;
        }
        assert(other.items@.take(i as int) =~= other.items@);
        out
    }

    /// The elements present in both sets.
    pub fn intersect(&self, other: &Self) -> (r: Self)
        ensures
            r@ == self@.intersect(other@),
    {
        let mut out = KeySet::empty();
        let mut i: usize = 0;
        while i < self.items.len()
            invariant
                i <= self.items@.len(),
                out@ == self.items@.take(i as int).to_set().intersect(other@),
            decreases self.items@.len() - i,
        {
            let k = self.items[i];
            proof {
                lemma_take_to_set_step(self.items@, i as int);
            }
            if other.contains(&k) {
                out.insert(k);
                assert(out@ =~= self.items@.take(i + 1).to_set().intersect(other@));
            } else {
                assert(out@ =~= self.items@.take(i + 1).to_set().intersect(other@));
            }
            i = i + 1;
        }
        assert(self.items@.take(i as int) =~= self.items@);
        out
    }

    /// Return whether every element of this set is in `other`.
    pub fn is_subset(&self, other: &Self) -> (r: bool)
        ensures
            r == self@.subset_of(other@),
    {
        let mut i: usize = 0;
        while i < self.items.len()
            invariant
                i <= self.items@.len(),
                forall|j: int| 0 <= j < i ==> other@.contains(self.items@[j]),
            decreases self.items@.len() - i,
        {
            if !other.contains(&self.items[i]) {
                assert(self@.contains(self.items@[i as int]));
                return false;
            }
            i = i + 1;
        }
        assert forall|x: K| self@.contains(x) implies other@.contains(x) by {
            let j = choose|j: int| 0 <= j < self.items@.len() && self.items@[j] == x;
        }
        true
    }

    /// Return whether two sets hold the same elements.
    pub fn same_set(&self, other: &Self) -> (r: bool)
        ensures
            r == (self@ == other@),
    {
        let a = self.is_subset(other);
        let b = other.is_subset(self);
        proof {
            if a && b {
                assert(self@ =~= other@);
            }
        }
        a && b
    }
}

/// Extending a prefix by one element adds that element to its set.
pub proof fn lemma_take_to_set_step<K>(s: Seq<K>, i: int)
    requires
        0 <= i < s.len(),
    ensures
        s.take(i + 1).to_set() == s.take(i).to_set().insert(s[i]),
{
    assert forall|x: K| s.take(i + 1).contains(x) <==> (s.take(i).contains(x) || x == s[i]) by {
        if s.take(i + 1).contains(x) {
            let t = s.take(i + 1);
            let j = choose|j: int| 0 <= j < t.len() && t[j] == x;
            if j < i {
                assert(s.take(i)[j] == x);
            }
        }
        if s.take(i).contains(x) {
            let t = s.take(i);
            let j = choose|j: int| 0 <= j < t.len() && t[j] == x;
            assert(s.take(i + 1)[j] == x);
        }
        if x == s[i] {
            assert(s.take(i + 1)[i] == x);
        }
    }
    assert forall|x: K|
        s.take(i + 1).to_set().contains(x) <==> s.take(i).to_set().insert(s[i]).contains(x) by {
        if x == s[i] {
            assert(s.take(i + 1)[i] == x);
            assert(s.take(i + 1).contains(x));
        }
    }
    assert(s.take(i + 1).to_set() =~= s.take(i).to_set().insert(s[i]));
}

/// A finite map from keys to values, compared by the values' views.
#[derive(Debug)]
pub struct ValueMap<K, V> {
    entries: Vec<(K, V)>,
}

impl<K: ExactKey, V: AbstractValue> ValueMap<K, V> {
    /// Keys of the entries, in storage order.
    pub closed spec fn key_seq(self) -> Seq<K> {
        self.entries@.map_values(|e: (K, V)| e.0)
    }

    /// Each key is stored once.
    pub closed spec fn wf(self) -> bool {
        self.key_seq().no_duplicates()
    }

    /// The map from each stored key to the view of its value.
    pub closed spec fn map(self) -> Map<K, V::V> {
        Map::new(
            |k: K| self.key_seq().contains(k),
            |k: K| self.entries@[self.key_seq().index_of(k)].1@,
        )
    }

    proof fn lemma_entry(self, i: int)
        requires
            self.wf(),
            0 <= i < self.entries@.len(),
        ensures
            self.map().contains_key(self.entries@[i].0),
            self.map()[self.entries@[i].0] == self.entries@[i].1@,
    {
        let k = self.entries@[i].0;
        assert(self.key_seq()[i] == k);
        let j = self.key_seq().index_of(k);
        assert(self.key_seq().contains(k));
        assert(0 <= j < self.key_seq().len() && self.key_seq()[j] == k);
    }

    /// The stored keys are exactly the map's domain, each stored once.
    pub proof fn lemma_keys(self)
        requires
            self.wf(),
        ensures
            self.map().dom() == self.key_seq().to_set(),
            self.key_seq().no_duplicates(),
    {
        assert(self.map().dom() =~= self.key_seq().to_set());
    }

    /// The empty map.
    pub fn new() -> (r: Self)
        ensures
            r.wf(),
            r.map() == Map::<K, V::V>::empty(),
    {
        let r = ValueMap { entries: Vec::new() };
        assert(r.map() =~= Map::<K, V::V>::empty());
        r
    }

    /// Return the number of entries.
    pub fn len(&self) -> (r: usize)
        ensures
            r == self.key_seq().len(),
    {
        self.entries.len()
    }

    /// Return the key of entry `i`.
    pub fn key_at(&self, i: usize) -> (r: K)
        requires
            i < self.key_seq().len(),
        ensures
            r == self.key_seq()[i as int],
    {
        self.entries[i].0
    }

    /// Return the value of entry `i`.
    pub fn value_at(&self, i: usize) -> (r: &V)
        requires
            self.wf(),
            i < self.key_seq().len(),
        ensures
            self.map().contains_key(self.key_seq()[i as int]),
            r@ == self.map()[self.key_seq()[i as int]],
    {
        proof {
            self.lemma_entry(i as int);
        }
        &self.entries[i].1
    }

    fn find(&self, k: &K) -> (r: Option<usize>)
        requires
            self.wf(),
        ensures
            match r {
                Some(i) => i < self.entries@.len() && self.entries@[i as int].0 == *k,
                None => !self.map().contains_key(*k),
            },
    {
        let mut i: usize = 0;
        while i < self.entries.len()
            invariant
                i <= self.entries@.len(),
                forall|j: int| 0 <= j < i ==> self.entries@[j].0 != *k,
            decreases self.entries@.len() - i,
        {
            if self.entries[i].0.same_key(k) {
                return Some(i);
            }
            i = i + 1;
        }
        assert(!self.key_seq().contains(*k)) by {
            if self.key_seq().contains(*k) {
                let j = choose|j: int| 0 <= j < self.key_seq().len() && self.key_seq()[j] == *k;
                assert(self.entries@[j].0 == *k);
            }
        }
        None
    }

    /// Return the value stored for `k`, if any.
    pub fn get(&self, k: &K) -> (r: Option<&V>)
        requires
            self.wf(),
        ensures
            match r {
                Some(v) => self.map().contains_key(*k) && self.map()[*k] == v@,
                None => !self.map().contains_key(*k),
            },
    {
        match self.find(k) {
            Some(i) => {
                proof {
                    self.lemma_entry(i as int);
                }
                Some(&self.entries[i].1)
            },
            None => None,
        }
    }

    /// Store `v` for `k`, replacing any previous value.
    pub fn insert(&mut self, k: K, v: V)
        requires
            old(self).wf(),
        ensures
            final(self).wf(),
            final(self).map() == old(self).map().insert(k, v@),
    {
        let ghost old_map = self.map();
        let ghost old_keys = self.key_seq();
        match self.find(&k) {
            Some(i) => {
                let ghost vv = v@;
                self.entries.set(i, (k, v));
                proof {
                    assert(self.key_seq() =~= old_keys);
                    assert forall|x: K| #[trigger] self.map().contains_key(x) <==> old_map.insert(
                        k,
                        vv,
                    ).contains_key(x) by {
                        if x == k {
                            assert(old_keys[i as int] == k);
                        }
                    }
                    assert forall|x: K| self.map().contains_key(x) implies self.map()[x]
                        == old_map.insert(k, vv)[x] by {
                        let j = self.key_seq().index_of(x);
                        assert(0 <= j < self.key_seq().len() && self.key_seq()[j] == x);
                        if x == k {
                            assert(old_keys[i as int] == k);
                            assert(j == i);
                        } else {
                            assert(j != i);
                            assert(self.entries@[j] == old(self).entries@[j]);
                        }
                    }
                    assert(self.map() =~= old_map.insert(k, vv));
                }
            },
            None => {
                let ghost vv = v@;
                self.entries.push((k, v));
                proof {
                    assert(self.key_seq() =~= old_keys.push(k));
                    assert(!old_keys.contains(k));
                    assert(self.wf()) by {
                        assert forall|a: int, b: int|
                            0 <= a < self.key_seq().len() && 0 <= b < self.key_seq().len() && a
                                != b implies self.key_seq()[a] != self.key_seq()[b] by {
                            if a < old_keys.len() && b < old_keys.len() {
                            } else if a == old_keys.len() {
                                assert(old_keys[b] == self.key_seq()[b]);
                            } else {
                                assert(old_keys[a] == self.key_seq()[a]);
                            }
                        }
                    }
                    assert forall|x: K| #[trigger] self.map().contains_key(x) <==> old_map.insert(
                        k,
                        vv,
                    ).contains_key(x) by {
                        if self.key_seq().contains(x) {
                            let j = choose|j: int|
                                0 <= j < self.key_seq().len() && self.key_seq()[j] == x;
                            if j < old_keys.len() {
                                assert(old_keys[j] == x);
                            }
                        }
                        if old_keys.contains(x) {
                            let j = choose|j: int| 0 <= j < old_keys.len() && old_keys[j] == x;
                            assert(self.key_seq()[j] == x);
                        }
                        if x == k {
                            assert(self.key_seq()[old_keys.len() as int] == k);
                        }
                    }
                    assert forall|x: K| self.map().contains_key(x) implies self.map()[x]
                        == old_map.insert(k, vv)[x] by {
                        let j = self.key_seq().index_of(x);
                        assert(0 <= j < self.key_seq().len() && self.key_seq()[j] == x);
                        if x == k {
                            assert(self.key_seq()[old_keys.len() as int] == k);
                            assert(j == old_keys.len());
                        } else {
                            assert(j < old_keys.len());
                            assert(old_keys[j] == x);
                            let oj = old_keys.index_of(x);
                            assert(0 <= oj < old_keys.len() && old_keys[oj] == x);
                            assert(self.key_seq()[oj] == x);
                            assert(oj == j);
                            assert(self.entries@[j] == old(self).entries@[j]);
                        }
                    }
                    assert(self.map() =~= old_map.insert(k, vv));
                }
            },
        }
    }

    /// Remove any value stored for `k`.
    pub fn remove(&mut self, k: &K)
        requires
            old(self).wf(),
        ensures
            final(self).wf(),
            final(self).map() == old(self).map().remove(*k),
    {
        let ghost old_map = self.map();
        let ghost old_keys = self.key_seq();
        match self.find(k) {
            Some(i) => {
                self.entries.remove(i);
                proof {
                    assert(self.key_seq() =~= old_keys.remove(i as int));
                    assert(self.wf()) by {
                        assert forall|a: int, b: int|
                            0 <= a < self.key_seq().len() && 0 <= b < self.key_seq().len() && a
                                != b implies self.key_seq()[a] != self.key_seq()[b] by {
                            let oa = if a < i { a } else { a + 1 };
                            let ob = if b < i { b } else { b + 1 };
                            assert(self.key_seq()[a] == old_keys[oa]);
                            assert(self.key_seq()[b] == old_keys[ob]);
                        }
                    }
                    assert forall|x: K| #[trigger] self.map().contains_key(x) <==> old_map.remove(
                        *k,
                    ).contains_key(x) by {
                        if self.key_seq().contains(x) {
                            let j = choose|j: int|
                                0 <= j < self.key_seq().len() && self.key_seq()[j] == x;
                            let oj = if j < i { j } else { j + 1 };
                            assert(old_keys[oj] == x);
                            assert(oj != i);
                            assert(old_keys[i as int] == *k);
                            assert(old_keys.contains(x));
                            assert(x != *k);
                        }
                        if old_keys.contains(x) && x != *k {
                            let j = choose|j: int| 0 <= j < old_keys.len() && old_keys[j] == x;
                            assert(j != i);
                            let nj = if j < i { j } else { j - 1 };
                            assert(self.key_seq()[nj] == x);
                        }
                    }
                    assert forall|x: K| self.map().contains_key(x) implies self.map()[x]
                        == old_map.remove(*k)[x] by {
                        let j = self.key_seq().index_of(x);
                        assert(0 <= j < self.key_seq().len() && self.key_seq()[j] == x);
                        let oj = if j < i { j } else { j + 1 };
                        assert(old_keys[oj] == x);
                        let ok = old_keys.index_of(x);
                        assert(0 <= ok < old_keys.len() && old_keys[ok] == x);
                        assert(ok == oj);
                        assert(self.entries@[j] == old(self).entries@[oj]);
                    }
                    assert(self.map() =~= old_map.remove(*k));
                }
            },
            None => {
                assert(self.map() =~= old_map.remove(*k));
            },
        }
    }

    /// Return whether every entry of this map is stored with the same value in `other`.
    pub fn is_submap(&self, other: &Self) -> (r: bool)
        requires
            self.wf(),
            other.wf(),
        ensures
            r == self.map().submap_of(other.map()),
    {
        let mut i: usize = 0;
        while i < self.entries.len()
            invariant
                i <= self.entries@.len(),
                self.wf(),
                other.wf(),
                forall|j: int|
                    0 <= j < i ==> other.map().contains_key(#[trigger] self.entries@[j].0)
                        && other.map()[self.entries@[j].0] == self.map()[self.entries@[j].0],
            decreases self.entries@.len() - i,
        {
            proof {
                self.lemma_entry(i as int);
            }
            match other.get(&self.entries[i].0) {
                Some(v) => {
                    if !v.same_value(&self.entries[i].1) {
                        return false;
                    }
                },
                None => {
                    return false;
                },
            }
            i = i + 1;
        }
        assert forall|x: K| #[trigger] self.map().contains_key(x) implies other.map().contains_key(x)
            && other.map()[x] == self.map()[x] by {
            let j = choose|j: int| 0 <= j < self.key_seq().len() && self.key_seq()[j] == x;
            assert(self.entries@[j].0 == x);
        }
        true
    }

    /// Return whether two maps hold the same entries.
    pub fn same_map(&self, other: &Self) -> (r: bool)
        requires
            self.wf(),
            other.wf(),
        ensures
            r == (self.map() == other.map()),
    {
        let a = self.is_submap(other);
        let b = other.is_submap(self);
        proof {
            if a && b {
                assert(self.map() =~= other.map());
            }
        }
        a && b
    }

    /// Return a map with the same entries.
    pub fn duplicate(&self) -> (r: Self)
        requires
            self.wf(),
        ensures
            r.wf(),
            r.map() == self.map(),
    {
        let mut out: ValueMap<K, V> = ValueMap::new();
        let mut i: usize = 0;
        while i < self.entries.len()
            invariant
                i <= self.entries@.len(),
                self.wf(),
                out.wf(),
                out.map() == self.map().restrict(self.key_seq().take(i as int).to_set()),
            decreases self.entries@.len() - i,
        {
            proof {
                self.lemma_entry(i as int);
                lemma_take_to_set_step(self.key_seq(), i as int);
            }
            let k = self.entries[i].0;
            let v = self.entries[i].1.duplicate();
            out.insert(k, v);
            assert(out.map() =~= self.map().restrict(self.key_seq().take(i + 1).to_set()));
            i = i + 1;
        }
        proof {
            assert(self.key_seq().take(i as int) =~= self.key_seq());
            self.lemma_keys();
            assert(out.map() =~= self.map());
        }
        out
    }

    /// The entries of this map that `other` stores with the same value.
    pub fn agreeing_entries(&self, other: &Self) -> (r: Self)
        requires
            self.wf(),
            other.wf(),
        ensures
            r.wf(),
            r.map() == agreement(self.map(), other.map()),
    {
        let mut out: ValueMap<K, V> = ValueMap::new();
        let mut i: usize = 0;
        while i < self.entries.len()
            invariant
                i <= self.entries@.len(),
                self.wf(),
                other.wf(),
                out.wf(),
                out.map() == agreement(self.map(), other.map()).restrict(
                    self.key_seq().take(i as int).to_set(),
                ),
            decreases self.entries@.len() - i,
        {
            proof {
                self.lemma_entry(i as int);
                lemma_take_to_set_step(self.key_seq(), i as int);
            }
            let k = self.entries[i].0;
            match other.get(&k) {
                Some(ov) => {
                    if ov.same_value(&self.entries[i].1) {
                        let v = self.entries[i].1.duplicate();
                        out.insert(k, v);
                    }
                },
                None => {},
            }
            assert(out.map() =~= agreement(self.map(), other.map()).restrict(
                self.key_seq().take(i + 1).to_set(),
            ));
            i = i + 1;
        }
        proof {
            assert(self.key_seq().take(i as int) =~= self.key_seq());
            self.lemma_keys();
            assert(out.map() =~= agreement(self.map(), other.map()));
        }
        out
    }
}

/// The entries present in both maps with the same value.
pub open spec fn agreement<K, V>(a: Map<K, V>, b: Map<K, V>) -> Map<K, V> {
    Map::new(|k: K| a.contains_key(k) && b.contains_key(k) && a[k] == b[k], |k: K| a[k])
}

} // verus!
