//! Maps kept as lists of entries with distinct keys, keyed by peers or by text.

use vstd::prelude::*;
use crate::security::identity::PeerId;

verus! {

/// Keys that can be compared and copied with known results.
pub trait MapKey: Sized {
    /// The abstract value that identifies a key.
    type KeyView;

    /// The abstract value of this key.
    spec fn key_view(&self) -> Self::KeyView;

    /// Whether two keys are the same.
    fn key_eq(&self, other: &Self) -> (r: bool)
        ensures
            r == (self.key_view() == other.key_view()),
    ;

    /// A copy of the key.
    fn key_copy(&self) -> (r: Self)
        ensures
            r.key_view() == self.key_view(),
    ;
}

impl MapKey for PeerId {
    type KeyView = Seq<u8>;

    open spec fn key_view(&self) -> Seq<u8> {
        self@
    }

    fn key_eq(&self, other: &Self) -> (r: bool) {
        self.same_as(other)
    }

    fn key_copy(&self) -> (r: Self) {
        *self
    }
}

impl MapKey for String {
    type KeyView = Seq<char>;

    open spec fn key_view(&self) -> Seq<char> {
        self@
    }

    fn key_eq(&self, other: &Self) -> (r: bool) {
        *self == *other
    }

    fn key_copy(&self) -> (r: Self) {
        self.clone()
    }
}

impl MapKey for u64 {
    type KeyView = u64;

    open spec fn key_view(&self) -> u64 {
        *self
    }

    fn key_eq(&self, other: &Self) -> (r: bool) {
        *self == *other
    }

    fn key_copy(&self) -> (r: Self) {
        *self
    }
}

/// A map from keys to values, in insertion order, with at most one entry per key.
pub struct KeyMap<K: MapKey, V> {
    entries: Vec<(K, V)>,
}

/// A map from peers (by fingerprint) to values.
pub type PeerMap<V> = KeyMap<PeerId, V>;

/// A map from text keys to values.
pub type TextMap<V> = KeyMap<String, V>;

impl<K: MapKey, V> KeyMap<K, V> {
    /// No two entries belong to the same peer.
    #[verifier::type_invariant]
    closed spec fn distinct_keys(&self) -> bool {
        forall|i: int, j: int|
            0 <= i < j < self.entries@.len() ==> #[trigger] self.entries@[i].0.key_view() != #[trigger] self.entries@[j].0.key_view()
    }

    /// Whether some entry belongs to the peer with fingerprint `k`.
    pub closed spec fn has(&self, k: K::KeyView) -> bool {
        exists|i: int| 0 <= i < self.entries@.len() && #[trigger] self.entries@[i].0.key_view() == k
    }

    /// The position of the entry for `k` (meaningful when `has(k)`).
    pub closed spec fn index_of(&self, k: K::KeyView) -> int {
        choose|i: int| 0 <= i < self.entries@.len() && #[trigger] self.entries@[i].0.key_view() == k
    }

    /// The peers that have entries, in entry order.
    pub closed spec fn key_seq(&self) -> Seq<K::KeyView> {
        self.entries@.map_values(|e: (K, V)| e.0.key_view())
    }

    proof fn lemma_index_unique(&self, k: K::KeyView, i: int)
        requires
            self.distinct_keys(),
            0 <= i < self.entries@.len(),
            self.entries@[i].0.key_view() == k,
        ensures
            self.has(k),
            self.index_of(k) == i,
    {
        assert(self.has(k));
        let j = self.index_of(k);
        if j != i {
            if j < i {
                assert(self.entries@[j].0.key_view() != self.entries@[i].0.key_view());
            } else {
                assert(self.entries@[i].0.key_view() != self.entries@[j].0.key_view());
            }
        }
    }
}

impl<K: MapKey, V> View for KeyMap<K, V> {
    type V = Map<K::KeyView, V>;

    closed spec fn view(&self) -> Map<K::KeyView, V> {
        Map::new(|k: K::KeyView| self.has(k), |k: K::KeyView| self.entries@[self.index_of(k)].1)
    }
}

impl<K: MapKey, V> KeyMap<K, V> {
    /// An empty map.
    pub fn new() -> (r: Self)
        ensures
            r@ == Map::<K::KeyView, V>::empty(),
    {
        let r = Self { entries: Vec::new() };
        assert(r@ =~= Map::<K::KeyView, V>::empty());
        r
    }

    /// The number of peers with entries.
    pub fn len(&self) -> (n: usize)
        ensures
            n == self@.dom().len(),
            self@.dom().finite(),
    {
        proof {
            use_type_invariant(self);
            self.lemma_len();
        }
        self.entries.len()
    }

    proof fn lemma_len(&self)
        requires
            self.distinct_keys(),
        ensures
            self@.dom().len() == self.entries@.len(),
            self@.dom() == self.key_seq().to_set(),
    {
        let ks = self.key_seq();
        assert forall|i: int, j: int| 0 <= i < ks.len() && 0 <= j < ks.len() && i != j implies ks[i] != ks[j] by {
            if i < j {
                assert(self.entries@[i].0.key_view() != self.entries@[j].0.key_view());
            } else {
                assert(self.entries@[j].0.key_view() != self.entries@[i].0.key_view());
            }
        }
        assert(ks.no_duplicates());
        ks.unique_seq_to_set();
        assert forall|k: K::KeyView| self@.dom().contains(k) <==> ks.to_set().contains(k) by {
            if self@.dom().contains(k) {
                let i = self.index_of(k);
                assert(ks[i] == k);
            }
            if ks.to_set().contains(k) {
                let i = choose|i: int| 0 <= i < ks.len() && ks[i] == k;
                assert(self.entries@[i].0.key_view() == k);
            }
        }
        assert(self@.dom() =~= ks.to_set());
    }

    /// The position of the entry for `k`, if there is one.
    fn find(&self, k: &K) -> (r: Option<usize>)
        ensures
            match r {
                Some(i) => i < self.entries@.len() && self.entries@[i as int].0.key_view() == k.key_view() && self.has(k.key_view())
                    && self.index_of(k.key_view()) == i,
                None => !self.has(k.key_view()),
            },
    {
        proof {
            use_type_invariant(self);
        }
        let mut i: usize = 0;
        while i < self.entries.len()
            invariant
                i <= self.entries@.len(),
                self.distinct_keys(),
                forall|j: int| 0 <= j < i ==> self.entries@[j].0.key_view() != k.key_view(),
            decreases self.entries@.len() - i,
        {
            if self.entries[i].0.key_eq(k) {
                proof {
                    self.lemma_index_unique(k.key_view(), i as int);
                }
                return Some(i);
            }
            i = i + 1;
        }
        None
    }

    /// Whether `k` has an entry.
    pub fn contains_key(&self, k: &K) -> (r: bool)
        ensures
            r == self@.dom().contains(k.key_view()),
    {
        self.find(k).is_some()
    }

    /// The value stored for `k`, if any.
    pub fn get(&self, k: &K) -> (r: Option<&V>)
        ensures
            match r {
                Some(v) => self@.dom().contains(k.key_view()) && *v == self@[k.key_view()],
                None => !self@.dom().contains(k.key_view()),
            },
    {
        match self.find(k) {
            Some(i) => Some(&self.entries[i].1),
            None => None,
        }
    }

    /// Store `v` for `k`, replacing any earlier value.
    pub fn insert(&mut self, k: K, v: V)
        ensures
            final(self)@ == old(self)@.insert(k.key_view(), v),
    {
        proof {
            use_type_invariant(&*self);
        }
        let ghost old_self = *self;
        match self.find(&k) {
            Some(i) => {
                let mut entries: Vec<(K, V)> = Vec::new();
                std::mem::swap(&mut entries, &mut self.entries);
                entries.set(i, (k, v));
                proof {
                    assert forall|a: int, b: int| 0 <= a < b < entries@.len() implies
                        #[trigger] entries@[a].0.key_view() != #[trigger] entries@[b].0.key_view() by {
                        assert(old_self.entries@[a].0.key_view() != old_self.entries@[b].0.key_view());
                    }
                }
                self.entries = entries;
                proof {
                    assert forall|a: int, b: int| 0 <= a < b < self.entries@.len() implies
                        #[trigger] self.entries@[a].0.key_view() != #[trigger] self.entries@[b].0.key_view() by {
                        assert(old_self.entries@[a].0.key_view() != old_self.entries@[b].0.key_view());
                    }
                    assert forall|key: K::KeyView| #[trigger] self.has(key) <==> old_self.has(key) by {
                        if self.has(key) {
                            let j = choose|j: int| 0 <= j < self.entries@.len() && #[trigger] self.entries@[j].0.key_view() == key;
                            assert(old_self.entries@[j].0.key_view() == key);
                        }
                        if old_self.has(key) {
                            let j = choose|j: int| 0 <= j < old_self.entries@.len() && #[trigger] old_self.entries@[j].0.key_view() == key;
                            assert(self.entries@[j].0.key_view() == key);
                        }
                    }
                    assert forall|key: K::KeyView| self.has(key) && key != k.key_view() implies
                        self.entries@[self.index_of(key)].1 == old_self.entries@[old_self.index_of(key)].1 by {
                        let j = old_self.index_of(key);
                        assert(self.entries@[j].0.key_view() == key);
                        self.lemma_index_unique(key, j);
                    }
                    self.lemma_index_unique(k.key_view(), i as int);
                    assert(self@ =~= old_self@.insert(k.key_view(), v));
                }
            },
            None => {
                let mut entries: Vec<(K, V)> = Vec::new();
                std::mem::swap(&mut entries, &mut self.entries);
                entries.push((k, v));
                proof {
                    let n: int = old_self.entries@.len() as int;
                    assert forall|a: int, b: int| 0 <= a < b < entries@.len() implies
                        #[trigger] entries@[a].0.key_view() != #[trigger] entries@[b].0.key_view() by {
                        if b == n {
                            assert(old_self.entries@[a].0.key_view() != k.key_view());
                        } else {
                            assert(old_self.entries@[a].0.key_view() != old_self.entries@[b].0.key_view());
                        }
                    }
                }
                self.entries = entries;
                proof {
                    let n: int = old_self.entries@.len() as int;
                    assert forall|a: int, b: int| 0 <= a < b < self.entries@.len() implies
                        #[trigger] self.entries@[a].0.key_view() != #[trigger] self.entries@[b].0.key_view() by {
                        if b == n {
                            assert(old_self.entries@[a].0.key_view() != k.key_view());
                        } else {
                            assert(old_self.entries@[a].0.key_view() != old_self.entries@[b].0.key_view());
                        }
                    }
                    assert forall|key: K::KeyView| #[trigger] self.has(key) <==> (old_self.has(key) || key == k.key_view()) by {
                        if self.has(key) {
                            let j = choose|j: int| 0 <= j < self.entries@.len() && #[trigger] self.entries@[j].0.key_view() == key;
                            if j < n {
                                assert(old_self.entries@[j].0.key_view() == key);
                            }
                        }
                        if old_self.has(key) {
                            let j = choose|j: int| 0 <= j < old_self.entries@.len() && #[trigger] old_self.entries@[j].0.key_view() == key;
                            assert(self.entries@[j].0.key_view() == key);
                        }
                        if key == k.key_view() {
                            assert(self.entries@[n].0.key_view() == key);
                        }
                    }
                    assert forall|key: K::KeyView| self.has(key) && key != k.key_view() implies
                        self.entries@[self.index_of(key)].1 == old_self.entries@[old_self.index_of(key)].1 by {
                        let j = old_self.index_of(key);
                        assert(self.entries@[j].0.key_view() == key);
                        self.lemma_index_unique(key, j);
                    }
                    self.lemma_index_unique(k.key_view(), n);
                    assert(self@ =~= old_self@.insert(k.key_view(), v));
                }
            },
        }
    }

    /// Remove the entry for `k`, if there is one; the others keep their order.
    pub fn remove(&mut self, k: &K)
        ensures
            final(self)@ == old(self)@.remove(k.key_view()),
    {
        proof {
            use_type_invariant(&*self);
        }
        let ghost old_self = *self;
        match self.find(k) {
            Some(i) => {
                let mut entries: Vec<(K, V)> = Vec::new();
                std::mem::swap(&mut entries, &mut self.entries);
                entries.remove(i);
                proof {
                    let f = |j: int| if j < i { j } else { j + 1 };
                    assert forall|j: int| 0 <= j < entries@.len() implies entries@[j] == old_self.entries@[f(j)] by {}
                    assert forall|a: int, b: int| 0 <= a < b < entries@.len() implies
                        #[trigger] entries@[a].0.key_view() != #[trigger] entries@[b].0.key_view() by {
                        assert(entries@[a] == old_self.entries@[f(a)]);
                        assert(entries@[b] == old_self.entries@[f(b)]);
                        assert(old_self.entries@[f(a)].0.key_view() != old_self.entries@[f(b)].0.key_view());
                    }
                }
                self.entries = entries;
                proof {
                    let n: int = old_self.entries@.len() as int;
                    let f = |j: int| if j < i { j } else { j + 1 };
                    assert forall|j: int| 0 <= j < n - 1 implies self.entries@[j] == old_self.entries@[f(j)] by {}
                    assert forall|a: int, b: int| 0 <= a < b < self.entries@.len() implies
                        #[trigger] self.entries@[a].0.key_view() != #[trigger] self.entries@[b].0.key_view() by {
                        assert(self.entries@[a] == old_self.entries@[f(a)]);
                        assert(self.entries@[b] == old_self.entries@[f(b)]);
                        assert(old_self.entries@[f(a)].0.key_view() != old_self.entries@[f(b)].0.key_view());
                    }
                    assert forall|key: K::KeyView| #[trigger] self.has(key) <==> (old_self.has(key) && key != k.key_view()) by {
                        if self.has(key) {
                            let j = choose|j: int| 0 <= j < self.entries@.len() && #[trigger] self.entries@[j].0.key_view() == key;
                            assert(old_self.entries@[f(j)].0.key_view() == key);
                            if key == k.key_view() {
                                old_self.lemma_index_unique(key, f(j));
                            }
                        }
                        if old_self.has(key) && key != k.key_view() {
                            let j = choose|j: int| 0 <= j < old_self.entries@.len() && #[trigger] old_self.entries@[j].0.key_view() == key;
                            assert(j != i);
                            if j < i {
                                assert(self.entries@[j].0.key_view() == key);
                            } else {
                                assert(self.entries@[j - 1].0.key_view() == key);
                            }
                        }
                    }
                    assert forall|key: K::KeyView| self.has(key) implies
                        self.entries@[self.index_of(key)].1 == old_self.entries@[old_self.index_of(key)].1 by {
                        let j = self.index_of(key);
                        assert(old_self.entries@[f(j)].0.key_view() == key);
                        old_self.lemma_index_unique(key, f(j));
                    }
                    assert(self@ =~= old_self@.remove(k.key_view()));
                }
            },
            None => {
                proof {
                    assert(self@ =~= old_self@.remove(k.key_view()));
                }
            },
        }
    }

    /// Remove every entry.
    pub fn clear(&mut self)
        ensures
            final(self)@ == Map::<K::KeyView, V>::empty(),
    {
        self.entries = Vec::new();
        assert(self@ =~= Map::<K::KeyView, V>::empty());
    }

    /// The peers that have entries, each once, in entry order.
    pub fn keys(&self) -> (r: Vec<K>)
        ensures
            r@.len() == self@.dom().len(),
            forall|i: int| 0 <= i < r@.len() ==> self@.dom().contains(#[trigger] r@[i].key_view()),
            forall|k: K::KeyView| #[trigger] self@.dom().contains(k) ==> exists|i: int| 0 <= i < r@.len() && r@[i].key_view() == k,
            forall|i: int, j: int| 0 <= i < j < r@.len() ==> #[trigger] r@[i].key_view() != #[trigger] r@[j].key_view(),
    {
        proof {
            use_type_invariant(self);
            self.lemma_len();
        }
        let mut r: Vec<K> = Vec::new();
        let mut i: usize = 0;
        while i < self.entries.len()
            invariant
                i <= self.entries@.len(),
                self.distinct_keys(),
                r@.len() == i,
                forall|j: int| 0 <= j < i ==> r@[j].key_view() == self.entries@[j].0.key_view(),
            decreases self.entries@.len() - i,
        {
            r.push(self.entries[i].0.key_copy());
            i = i + 1;
        }
        proof {
            assert forall|j: int| 0 <= j < r@.len() implies self@.dom().contains(#[trigger] r@[j].key_view()) by {
                assert(self.entries@[j].0.key_view() == r@[j].key_view());
            }
            assert forall|k: K::KeyView| #[trigger] self@.dom().contains(k) implies exists|j: int| 0 <= j < r@.len() && r@[j].key_view() == k by {
                let j = self.index_of(k);
                assert(r@[j].key_view() == k);
            }
            assert forall|a: int, b: int| 0 <= a < b < r@.len() implies #[trigger] r@[a].key_view() != #[trigger] r@[b].key_view() by {
                assert(self.entries@[a].0.key_view() != self.entries@[b].0.key_view());
            }
        }
        r
    }
}

impl<V> KeyMap<PeerId, V> {
    /// The peers that have entries, each once, in entry order.
    pub fn peer_keys(&self) -> (r: Vec<PeerId>)
        ensures
            r@.len() == self@.dom().len(),
            forall|i: int| 0 <= i < r@.len() ==> self@.dom().contains(#[trigger] r@[i]@),
            forall|k: Seq<u8>| #[trigger] self@.dom().contains(k) ==> exists|i: int| 0 <= i < r@.len() && r@[i]@ == k,
            forall|i: int, j: int| 0 <= i < j < r@.len() ==> #[trigger] r@[i]@ != #[trigger] r@[j]@,
    {
        let r = self.keys();
        proof {
            assert forall|i: int| 0 <= i < r@.len() implies self@.dom().contains(#[trigger] r@[i]@) by {
                assert(self@.dom().contains(r@[i].key_view()));
            }
            assert forall|i: int, j: int| 0 <= i < j < r@.len() implies #[trigger] r@[i]@ != #[trigger] r@[j]@ by {
                assert(r@[i].key_view() != r@[j].key_view());
            }
        }
        r
    }
}

impl<V> KeyMap<String, V> {
    /// The text keys that have entries, each once, in entry order.
    pub fn text_keys(&self) -> (r: Vec<String>)
        ensures
            r@.len() == self@.dom().len(),
            forall|i: int| 0 <= i < r@.len() ==> self@.dom().contains(#[trigger] r@[i]@),
            forall|k: Seq<char>| #[trigger] self@.dom().contains(k) ==> exists|i: int| 0 <= i < r@.len() && r@[i]@ == k,
            forall|i: int, j: int| 0 <= i < j < r@.len() ==> #[trigger] r@[i]@ != #[trigger] r@[j]@,
    {
        let r = self.keys();
        proof {
            assert forall|i: int| 0 <= i < r@.len() implies self@.dom().contains(#[trigger] r@[i]@) by {
                assert(self@.dom().contains(r@[i].key_view()));
            }
            assert forall|i: int, j: int| 0 <= i < j < r@.len() implies #[trigger] r@[i]@ != #[trigger] r@[j]@ by {
                assert(r@[i].key_view() != r@[j].key_view());
            }
        }
        r
    }
}

} // verus!
