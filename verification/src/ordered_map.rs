use vstd::prelude::*;
use crate::text::{seq_lt, str_eq, str_less, lemma_seq_lt_irreflexive, lemma_seq_lt_transitive, lemma_seq_lt_total};

verus! {

/// Keys held in strictly ascending order, hence without repetition.
pub open spec fn keys_sorted(ks: Seq<Seq<char>>) -> bool {
    forall|i: int, j: int| 0 <= i < j < ks.len() ==> seq_lt(#[trigger] ks[i], #[trigger] ks[j])
}

/// In a sorted key sequence a key occurs at one index only.
pub proof fn lemma_sorted_index_unique(ks: Seq<Seq<char>>, i: int, j: int)
    requires
        keys_sorted(ks),
        0 <= i < ks.len(),
        0 <= j < ks.len(),
        ks[i] == ks[j],
    ensures
        i == j,
{
    if i < j {
        lemma_seq_lt_irreflexive(ks[i]);
    } else if j < i {
        lemma_seq_lt_irreflexive(ks[j]);
    }
}

/// A map from strings to values whose entries are kept in ascending key order,
/// as a `BTreeMap<String, T>` keeps and walks them.
pub struct OrderedMap<T> {
    keys: Vec<String>,
    vals: Vec<T>,
}

impl<T> OrderedMap<T> {
    /// The keys, in ascending order.
    pub closed spec fn key_seq(&self) -> Seq<Seq<char>> {
        self.keys@.map_values(|k: String| k@)
    }

    /// The values, in the order of their keys.
    pub closed spec fn val_seq(&self) -> Seq<T> {
        self.vals@
    }

    pub open spec fn wf(&self) -> bool {
        &&& self.key_seq().len() == self.val_seq().len()
        &&& keys_sorted(self.key_seq())
    }

    pub open spec fn spec_len(&self) -> nat {
        self.key_seq().len()
    }

    pub open spec fn has(&self, k: Seq<char>) -> bool {
        exists|i: int| 0 <= i < self.key_seq().len() && self.key_seq()[i] == k
    }

    /// The position of a key that the map holds.
    pub open spec fn pos(&self, k: Seq<char>) -> int {
        choose|i: int| 0 <= i < self.key_seq().len() && self.key_seq()[i] == k
    }

    /// The map as a mathematical map.
    pub open spec fn map(&self) -> Map<Seq<char>, T> {
        Map::new(|k: Seq<char>| self.has(k), |k: Seq<char>| self.val_seq()[self.pos(k)])
    }

    /// The entry at a position.
    pub open spec fn entry(&self, i: int) -> (Seq<char>, T) {
        (self.key_seq()[i], self.val_seq()[i])
    }

    /// Facts on the position of a key found at index `i`.
    pub proof fn lemma_pos(&self, i: int)
        requires
            self.wf(),
            0 <= i < self.key_seq().len(),
        ensures
            self.has(self.key_seq()[i]),
            self.pos(self.key_seq()[i]) == i,
            self.map().contains_key(self.key_seq()[i]),
            self.map()[self.key_seq()[i]] == self.val_seq()[i],
    {
        let k = self.key_seq()[i];
        assert(self.has(k));
        let p = self.pos(k);
        lemma_sorted_index_unique(self.key_seq(), i, p);
    }

    /// An empty map.
    pub fn new() -> (m: Self)
        ensures
            m.wf(),
            m.key_seq() == Seq::<Seq<char>>::empty(),
            m.map() == Map::<Seq<char>, T>::empty(),
    {
        let m = OrderedMap { keys: Vec::new(), vals: Vec::new() };
        assert(m.key_seq() =~= Seq::<Seq<char>>::empty());
        assert(m.map() =~= Map::<Seq<char>, T>::empty());
        m
    }

    pub fn len(&self) -> (n: usize)
        requires
            self.wf(),
        ensures
            n == self.spec_len(),
    {
        self.keys.len()
    }

    pub fn is_empty(&self) -> (b: bool)
        requires
            self.wf(),
        ensures
            b == (self.spec_len() == 0),
    {
        self.keys.len() == 0
    }

    /// The key at position `i`.
    pub fn key_at(&self, i: usize) -> (k: &String)
        requires
            self.wf(),
            i < self.spec_len(),
        ensures
            k@ == self.key_seq()[i as int],
    {
        &self.keys[i]
    }

    /// The value at position `i`.
    pub fn value_at(&self, i: usize) -> (v: &T)
        requires
            self.wf(),
            i < self.spec_len(),
        ensures
            *v == self.val_seq()[i as int],
    {
        &self.vals[i]
    }

    /// The position of `key`, if the map holds it.
    pub fn find(&self, key: &str) -> (r: Option<usize>)
        requires
            self.wf(),
        ensures
            r matches Some(i) ==> i < self.spec_len() && self.key_seq()[i as int] == key@ && self.pos(key@) == i,
            r is None ==> !self.has(key@),
            r is Some <==> self.has(key@),
    {
        let n = self.keys.len();
        let mut i: usize = 0;
        while i < n
            invariant
                self.wf(),
                n == self.key_seq().len(),
                n == self.keys@.len(),
                i <= n,
                forall|j: int| 0 <= j < i ==> self.key_seq()[j] != key@,
            decreases n - i,
        {
            if str_eq(self.keys[i].as_str(), key) {
                proof {
                    self.lemma_pos(i as int);
                }
                return Some(i);
            }
            i = i + 1;
        }
        None
    }

    pub fn contains_key(&self, key: &str) -> (b: bool)
        requires
            self.wf(),
        ensures
            b == self.map().contains_key(key@),
    {
        self.find(key).is_some()
    }

    /// The value stored under `key`.
    pub fn get(&self, key: &str) -> (r: Option<&T>)
        requires
            self.wf(),
        ensures
            r matches Some(v) ==> self.map().contains_key(key@) && *v == self.map()[key@],
            r is None ==> !self.map().contains_key(key@),
    {
        match self.find(key) {
            Some(i) => Some(&self.vals[i]),
            None => None,
        }
    }

    /// The values, in key order.
    pub fn into_values(self) -> (r: Vec<T>)
        ensures
            r@ == self.val_seq(),
    {
        self.vals
    }

    /// Replaces the value at position `i`.
    pub fn set_value_at(&mut self, i: usize, v: T)
        requires
            old(self).wf(),
            i < old(self).spec_len(),
        ensures
            final(self).wf(),
            final(self).key_seq() == old(self).key_seq(),
            final(self).val_seq() == old(self).val_seq().update(i as int, v),
            final(self).map() == old(self).map().insert(old(self).key_seq()[i as int], v),
    {
        let ghost old_self = *self;
        self.vals.set(i, v);
        proof {
            let k = old_self.key_seq()[i as int];
            assert(self.key_seq() =~= old_self.key_seq());
            assert forall|key: Seq<char>| #[trigger] self.map().contains_key(key) <==> old_self.map().insert(k, v).contains_key(key) by {
                if old_self.has(key) {
                    assert(self.has(key));
                }
                if self.has(key) {
                    assert(old_self.has(key));
                }
                if key == k {
                    old_self.lemma_pos(i as int);
                }
            }
            assert forall|key: Seq<char>| #[trigger] self.map().contains_key(key) implies self.map()[key] == old_self.map().insert(k, v)[key] by {
                let p = self.pos(key);
                self.lemma_pos(p);
                old_self.lemma_pos(p);
                if p != i && key == k {
                    lemma_sorted_index_unique(old_self.key_seq(), p, i as int);
                }
            }
            assert(self.map() =~= old_self.map().insert(k, v));
        }
    }

    /// Stores `value` under `key`, in its place in key order.
    pub fn insert(&mut self, key: String, value: T)
        requires
            old(self).wf(),
        ensures
            final(self).wf(),
            final(self).map() == old(self).map().insert(key@, value),
    {
        let n = self.keys.len();
        let mut i: usize = 0;
        while i < n
            invariant
                self.wf(),
                n == self.key_seq().len(),
                n == self.keys@.len(),
                i <= n,
                forall|j: int| 0 <= j < i ==> seq_lt(#[trigger] self.key_seq()[j], key@),
            ensures
                i <= n,
                forall|j: int| 0 <= j < i ==> seq_lt(#[trigger] self.key_seq()[j], key@),
                i < n ==> !seq_lt(self.key_seq()[i as int], key@),
            decreases n - i,
        {
            if !str_less(self.keys[i].as_str(), key.as_str()) {
                break;
            }
            i = i + 1;
        }
        if i < n && str_eq(self.keys[i].as_str(), key.as_str()) {
            self.set_value_at(i, value);
            return;
        }
        let ghost old_self = *self;
        proof {
            if i < n {
                lemma_seq_lt_total(old_self.key_seq()[i as int], key@);
            }
        }
        self.keys.insert(i, key);
        self.vals.insert(i, value);
        proof {
            let ks = self.key_seq();
            let oks = old_self.key_seq();
            assert(ks =~= oks.insert(i as int, key@));
            assert forall|a: int, b: int| 0 <= a < b < ks.len() implies seq_lt(#[trigger] ks[a], #[trigger] ks[b]) by {
                if b < i {
                } else if a < i && b == i {
                } else if a < i && b > i {
                    assert(ks[a] == oks[a]);
                    assert(ks[b] == oks[b - 1]);
                } else if a == i {
                    if b - 1 > i {
                        lemma_seq_lt_transitive(key@, oks[i as int], oks[b - 1]);
                    }
                } else {
                }
            }
            let m = old_self.map().insert(key@, value);
            assert(self.val_seq() =~= old_self.val_seq().insert(i as int, value));
            assert forall|k: Seq<char>| #[trigger] self.map().contains_key(k) <==> m.contains_key(k) by {
                if self.has(k) {
                    let p = self.pos(k);
                    if p < i {
                        assert(oks[p] == k);
                    } else if p > i {
                        assert(oks[p - 1] == k);
                    }
                }
                if old_self.has(k) {
                    let p = old_self.pos(k);
                    if p < i {
                        assert(ks[p] == k);
                    } else {
                        assert(ks[p + 1] == k);
                    }
                }
                if k == key@ {
                    assert(ks[i as int] == k);
                }
            }
            assert forall|k: Seq<char>| #[trigger] self.map().contains_key(k) implies self.map()[k] == m[k] by {
                let p = self.pos(k);
                self.lemma_pos(p);
                if k == key@ && p != i {
                    lemma_sorted_index_unique(ks, p, i as int);
                }
                if p < i {
                    old_self.lemma_pos(p);
                } else if p > i {
                    old_self.lemma_pos(p - 1);
                }
            }
            assert(self.map() =~= m);
        }
    }

    /// Removes `key` and gives back its value.
    pub fn remove(&mut self, key: &str) -> (r: Option<T>)
        requires
            old(self).wf(),
        ensures
            final(self).wf(),
            final(self).map() == old(self).map().remove(key@),
            r matches Some(v) ==> old(self).map().contains_key(key@) && v == old(self).map()[key@],
            r is None ==> !old(self).map().contains_key(key@),
    {
        match self.find(key) {
            None => {
                proof {
                    assert(self.map().remove(key@) =~= self.map());
                }
                None
            },
            Some(i) => {
                let ghost old_self = *self;
                proof {
                    old_self.lemma_pos(i as int);
                }
                self.keys.remove(i);
                let v = self.vals.remove(i);
                proof {
                    let ks = self.key_seq();
                    let oks = old_self.key_seq();
                    assert(ks =~= oks.remove(i as int));
                    assert forall|a: int, b: int| 0 <= a < b < ks.len() implies seq_lt(#[trigger] ks[a], #[trigger] ks[b]) by {
                        if a < i && b >= i {
                            assert(ks[b] == oks[b + 1]);
                        } else if a >= i {
                            assert(ks[a] == oks[a + 1]);
                            assert(ks[b] == oks[b + 1]);
                        }
                    }
                    let m = old_self.map().remove(key@);
                    assert(self.val_seq() =~= old_self.val_seq().remove(i as int));
                    assert forall|k: Seq<char>| #[trigger] self.map().contains_key(k) <==> m.contains_key(k) by {
                        if self.has(k) {
                            let p = self.pos(k);
                            if p < i {
                                assert(oks[p] == k);
                                if k == key@ {
                                    lemma_sorted_index_unique(oks, p, i as int);
                                }
                            } else {
                                assert(oks[p + 1] == k);
                                if k == key@ {
                                    lemma_sorted_index_unique(oks, p + 1, i as int);
                                }
                            }
                        }
                        if m.contains_key(k) {
                            let p = old_self.pos(k);
                            if p < i {
                                assert(ks[p] == k);
                            } else if p > i {
                                assert(ks[p - 1] == k);
                            }
                        }
                    }
                    assert forall|k: Seq<char>| #[trigger] self.map().contains_key(k) implies self.map()[k] == m[k] by {
                        let p = self.pos(k);
                        self.lemma_pos(p);
                        if p < i {
                            old_self.lemma_pos(p);
                        } else {
                            old_self.lemma_pos(p + 1);
                        }
                    }
                    assert(self.map() =~= m);
                }
                Some(v)
            },
        }
    }
}

impl<T: Clone> OrderedMap<T> {
    /// The keys, in ascending order.
    pub fn keys(&self) -> (r: Vec<String>)
        requires
            self.wf(),
        ensures
            r@.len() == self.spec_len(),
            forall|i: int| 0 <= i < r@.len() ==> #[trigger] r@[i]@ == self.key_seq()[i],
    {
        let mut r: Vec<String> = Vec::new();
        let n = self.keys.len();
        let mut i: usize = 0;
        while i < n
            invariant
                n == self.keys@.len(),
                n == self.key_seq().len(),
                i <= n,
                r@.len() == i,
                forall|j: int| 0 <= j < i ==> #[trigger] r@[j]@ == self.key_seq()[j],
            decreases n - i,
        {
            r.push(self.keys[i].clone());
            i = i + 1;
        }
        r
    }
}

} // verus!
