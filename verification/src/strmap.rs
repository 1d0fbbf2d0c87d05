//! An insertion-ordered map from string keys to values.
//!
//! The stores of the platform (teams, domains, users, tokens, plans) keep
//! their records in one of these. Its abstract view is a `Map` from the key's
//! characters to the value; the insertion order of the keys is kept as well,
//! so that listings come out in a defined order.

use vstd::prelude::*;
use crate::order::{keys_sorted, sort_entries};
use crate::text::str_eq;

verus! {

/// A map from string keys to values that remembers insertion order.
pub struct StrMap<V> {
    keys: Vec<String>,
    vals: Vec<V>,
}

impl<V> StrMap<V> {
    /// The keys, in insertion order.
    pub closed spec fn key_seq(&self) -> Seq<Seq<char>> {
        self.keys@.map_values(|k: String| k@)
    }

    /// The values, aligned with `key_seq`.
    pub closed spec fn val_seq(&self) -> Seq<V> {
        self.vals@
    }

    /// Well-formedness: one value per key and no key twice.
    pub closed spec fn wf(&self) -> bool {
        &&& self.keys@.len() == self.vals@.len()
        &&& self.key_seq().no_duplicates()
    }

    /// What well-formedness means for the two sequences.
    pub proof fn lemma_wf(&self)
        requires
            self.wf(),
        ensures
            self.key_seq().len() == self.val_seq().len(),
            self.key_seq().no_duplicates(),
    {
    }

    /// The entry at position `i` is the map's entry for that key.
    pub proof fn lemma_at(&self, i: int)
        requires
            self.wf(),
            0 <= i < self.key_seq().len(),
        ensures
            self@.contains_key(self.key_seq()[i]),
            self@[self.key_seq()[i]] == self.val_seq()[i],
            self.key_seq().index_of(self.key_seq()[i]) == i,
    {
        let k = self.key_seq()[i];
        assert(self.key_seq().contains(k));
        let j = self.key_seq().index_of(k);
        assert(0 <= j < self.key_seq().len() && self.key_seq()[j] == k);
    }

    /// The keys of the map are exactly those in `key_seq`.
    pub proof fn lemma_dom(&self)
        requires
            self.wf(),
        ensures
            self@.dom() =~= self.key_seq().to_set(),
            self@.dom().finite(),
            self@.len() == self.key_seq().len(),
    {
        self.key_seq().unique_seq_to_set();
    }

    /// An empty map.
    pub fn new() -> (res: Self)
        ensures
            res.wf(),
            res.key_seq() == Seq::<Seq<char>>::empty(),
            res.val_seq() == Seq::<V>::empty(),
            res@ == Map::<Seq<char>, V>::empty(),
    {
        let res = StrMap { keys: Vec::new(), vals: Vec::new() };
        proof {
            assert(res.key_seq() =~= Seq::<Seq<char>>::empty());
            assert(res@ =~= Map::<Seq<char>, V>::empty());
        }
        res
    }

    /// Number of entries.
    pub fn len(&self) -> (res: usize)
        requires
            self.wf(),
        ensures
            res == self.key_seq().len(),
    {
        self.keys.len()
    }

    /// The key at position `i`.
    pub fn key_at(&self, i: usize) -> (res: &String)
        requires
            self.wf(),
            i < self.key_seq().len(),
        ensures
            res@ == self.key_seq()[i as int],
    {
        &self.keys[i]
    }

    /// The value at position `i`.
    pub fn val_at(&self, i: usize) -> (res: &V)
        requires
            self.wf(),
            i < self.key_seq().len(),
        ensures
            *res == self.val_seq()[i as int],
    {
        &self.vals[i]
    }

    /// The position of key `k`, if present.
    pub fn find(&self, k: &str) -> (res: Option<usize>)
        requires
            self.wf(),
        ensures
            match res {
                Some(i) => i < self.key_seq().len() && self.key_seq()[i as int] == k@,
                None => !self.key_seq().contains(k@),
            },
            res is Some <==> self@.contains_key(k@),
    {
        let mut i: usize = 0;
        while i < self.keys.len()
            invariant
                self.wf(),
                i <= self.keys@.len(),
                forall|j: int| 0 <= j < i ==> self.key_seq()[j] != k@,
            decreases self.keys@.len() - i,
        {
            if str_eq(self.keys[i].as_str(), k) {
                proof {
                    assert(self.key_seq()[i as int] == k@);
                    assert(self.key_seq().contains(k@));
                }
                return Some(i);
            }
            i = i + 1;
        }
        None
    }

    /// The value for key `k`, if present.
    pub fn get(&self, k: &str) -> (res: Option<&V>)
        requires
            self.wf(),
        ensures
            match res {
                Some(v) => self@.contains_key(k@) && *v == self@[k@],
                None => !self@.contains_key(k@),
            },
    {
        match self.find(k) {
            Some(i) => {
                proof {
                    self.lemma_at(i as int);
                }
                Some(&self.vals[i])
            },
            None => None,
        }
    }

    /// Whether key `k` is present.
    pub fn contains_key(&self, k: &str) -> (res: bool)
        requires
            self.wf(),
        ensures
            res == self@.contains_key(k@),
    {
        self.find(k).is_some()
    }

    /// Replaces the value at position `i`.
    pub fn set_at(&mut self, i: usize, v: V)
        requires
            old(self).wf(),
            i < old(self).key_seq().len(),
        ensures
            final(self).wf(),
            final(self).key_seq() == old(self).key_seq(),
            final(self).val_seq() == old(self).val_seq().update(i as int, v),
            final(self)@ == old(self)@.insert(old(self).key_seq()[i as int], v),
    {
        self.vals.set(i, v);
        proof {
            let k = self.key_seq()[i as int];
            old(self).lemma_at(i as int);
            assert forall|kk: Seq<char>| #[trigger] self@.contains_key(kk) implies self@[kk]
                == old(self)@.insert(k, v)[kk] by {
                let j = self.key_seq().index_of(kk);
                self.lemma_at(j);
                if kk != k {
                    old(self).lemma_at(j);
                }
            }
            assert(self@ =~= old(self)@.insert(k, v));
        }
    }

    /// Inserts or replaces the value for key `k`.
    ///
    /// A new key goes to the end of the order; an existing key keeps its place.
    pub fn insert(&mut self, k: String, v: V)
        requires
            old(self).wf(),
        ensures
            final(self).wf(),
            final(self)@ == old(self)@.insert(k@, v),
            old(self)@.contains_key(k@) ==> final(self).key_seq() == old(self).key_seq()
                && final(self).val_seq() == old(self).val_seq().update(
                old(self).key_seq().index_of(k@),
                v,
            ),
            !old(self)@.contains_key(k@) ==> final(self).key_seq() == old(self).key_seq().push(k@)
                && final(self).val_seq() == old(self).val_seq().push(v),
    {
        match self.find(k.as_str()) {
            Some(i) => {
                proof {
                    self.lemma_at(i as int);
                }
                self.set_at(i, v);
            },
            None => {
                let ghost kv = k@;
                self.keys.push(k);
                self.vals.push(v);
                proof {
                    assert(self.key_seq() =~= old(self).key_seq().push(kv));
                    assert forall|a: int, b: int|
                        0 <= a < b < self.key_seq().len() implies self.key_seq()[a]
                        != self.key_seq()[b] by {
                        if b == self.key_seq().len() - 1 {
                            assert(old(self).key_seq().contains(self.key_seq()[a]));
                        }
                    }
                    assert forall|kk: Seq<char>| #[trigger] self@.contains_key(kk) implies self@[kk]
                        == old(self)@.insert(kv, v)[kk] by {
                        let j = self.key_seq().index_of(kk);
                        self.lemma_at(j);
                        if kk != kv {
                            old(self).lemma_at(j);
                        }
                    }
                    assert forall|kk: Seq<char>| #[trigger] old(self)@.insert(kv, v).contains_key(
                        kk,
                    ) implies self@.contains_key(kk) by {
                        if kk != kv {
                            let j = old(self).key_seq().index_of(kk);
                            assert(self.key_seq()[j] == kk);
                        } else {
                            assert(self.key_seq()[self.key_seq().len() - 1] == kk);
                        }
                    }
                    assert(self@ =~= old(self)@.insert(kv, v));
                }
            },
        }
    }

    /// Removes key `k`, returning its value if it was present.
    ///
    /// The remaining keys keep their order.
    pub fn remove(&mut self, k: &str) -> (res: Option<V>)
        requires
            old(self).wf(),
        ensures
            final(self).wf(),
            final(self)@ == old(self)@.remove(k@),
            match res {
                Some(v) => old(self)@.contains_key(k@) && v == old(self)@[k@]
                    && final(self).key_seq() == old(self).key_seq().remove(
                    old(self).key_seq().index_of(k@),
                ) && final(self).val_seq() == old(self).val_seq().remove(
                    old(self).key_seq().index_of(k@),
                ),
                None => !old(self)@.contains_key(k@) && final(self).key_seq() == old(
                    self,
                ).key_seq() && final(self).val_seq() == old(self).val_seq(),
            },
    {
        match self.find(k) {
            Some(i) => {
                proof {
                    self.lemma_at(i as int);
                }
                self.keys.remove(i);
                let v = self.vals.remove(i);
                proof {
                    let ok = old(self).key_seq();
                    assert(self.key_seq() =~= ok.remove(i as int));
                    assert forall|a: int, b: int|
                        0 <= a < b < self.key_seq().len() implies self.key_seq()[a]
                        != self.key_seq()[b] by {
                        let a2 = if a < i { a } else { a + 1 };
                        let b2 = if b < i { b } else { b + 1 };
                        assert(self.key_seq()[a] == ok[a2]);
                        assert(self.key_seq()[b] == ok[b2]);
                    }
                    assert forall|kk: Seq<char>| #[trigger] self@.contains_key(kk) implies self@[kk]
                        == old(self)@.remove(k@)[kk] && kk != k@ by {
                        let j = self.key_seq().index_of(kk);
                        self.lemma_at(j);
                        let j2 = if j < i { j } else { j + 1 };
                        assert(self.key_seq()[j] == ok[j2]);
                        old(self).lemma_at(j2);
                    }
                    assert forall|kk: Seq<char>| #[trigger] old(self)@.remove(k@).contains_key(
                        kk,
                    ) implies self@.contains_key(kk) by {
                        let j = ok.index_of(kk);
                        assert(j != i);
                        let j2 = if j < i { j } else { j - 1 };
                        assert(self.key_seq()[j2] == kk);
                    }
                    assert(self@ =~= old(self)@.remove(k@));
                }
                Some(v)
            },
            None => {
                proof {
                    assert(self@ =~= old(self)@.remove(k@));
                }
                None
            },
        }
    }
}

impl StrMap<String> {
    /// A copy of a map of strings.
    pub fn clone_strings(&self) -> (res: Self)
        requires
            self.wf(),
        ensures
            res.wf(),
            res.key_seq() == self.key_seq(),
            res.val_seq() == self.val_seq(),
            res@ == self@,
    {
        let mut keys: Vec<String> = Vec::new();
        let mut vals: Vec<String> = Vec::new();
        let mut i: usize = 0;
        while i < self.keys.len()
            invariant
                self.wf(),
                i <= self.keys@.len(),
                keys@.len() == i,
                vals@.len() == i,
                forall|j: int| 0 <= j < i ==> keys@[j] == self.keys@[j],
                forall|j: int| 0 <= j < i ==> vals@[j] == self.vals@[j],
            decreases self.keys@.len() - i,
        {
            keys.push(self.keys[i].clone());
            vals.push(self.vals[i].clone());
            i = i + 1;
        }
        let res = StrMap { keys, vals };
        proof {
            assert(res.keys@ =~= self.keys@);
            assert(res.vals@ =~= self.vals@);
        }
        res
    }
}

/// The entries of `m`, each once, in order of their keys.
pub open spec fn entries_listed(m: Map<Seq<char>, Seq<char>>, res: Seq<(String, String)>) -> bool {
    &&& res.len() == m.len()
    &&& forall|i: int|
        0 <= i < res.len() ==> m.contains_key(#[trigger] res[i].0@) && m[res[i].0@] == res[i].1@
    &&& forall|k: Seq<char>| #[trigger] m.contains_key(k) ==> exists|i: int| 0 <= i < res.len() && #[trigger] res[i].0@ == k
    &&& keys_sorted(res)
}

impl StrMap<String> {
    /// The map with each value taken by its characters.
    pub open spec fn text_view(&self) -> Map<Seq<char>, Seq<char>> {
        self@.map_values(|v: String| v@)
    }

    /// The entries, sorted by key.
    pub fn sorted_entries(&self) -> (res: Vec<(String, String)>)
        requires
            self.wf(),
        ensures
            entries_listed(self.text_view(), res@),
    {
        broadcast use vstd::seq_lib::group_to_multiset_ensures;

        let mut entries: Vec<(String, String)> = Vec::new();
        let mut i: usize = 0;
        while i < self.keys.len()
            invariant
                self.wf(),
                i <= self.keys@.len(),
                entries@.len() == i,
                forall|j: int| 0 <= j < i ==> #[trigger] entries@[j] == (self.keys@[j], self.vals@[j]),
            decreases self.keys@.len() - i,
        {
            entries.push((self.keys[i].clone(), self.vals[i].clone()));
            i = i + 1;
        }
        let ghost all = entries@;
        let res = sort_entries(entries);
        proof {
            self.lemma_dom();
            assert(res@.len() == all.len()) by {
                assert(res@.to_multiset().len() == all.to_multiset().len());
            }
            assert forall|a: int| 0 <= a < res@.len() implies self.text_view().contains_key(
                #[trigger] res@[a].0@,
            ) && self.text_view()[res@[a].0@] == res@[a].1@ by {
                assert(res@.contains(res@[a]));
                assert(res@.to_multiset().count(res@[a]) > 0);
                assert(all.contains(res@[a]));
                let j = choose|j: int| 0 <= j < all.len() && all[j] == res@[a];
                assert(self.key_seq()[j] == self.keys@[j]@);
                self.lemma_at(j);
            }
            assert forall|k: Seq<char>| #[trigger] self.text_view().contains_key(k) implies exists|a: int|
                0 <= a < res@.len() && #[trigger] res@[a].0@ == k by {
                assert(self.key_seq().contains(k));
                let j = choose|j: int| 0 <= j < self.key_seq().len() && self.key_seq()[j] == k;
                assert(all[j].0@ == k);
                assert(all.contains(all[j]));
                assert(all.to_multiset().count(all[j]) > 0);
                assert(res@.contains(all[j]));
                let a = choose|a: int| 0 <= a < res@.len() && res@[a] == all[j];
                assert(res@[a].0@ == k);
            }
            assert(self.text_view().len() == self@.len()) by {
                assert(self.text_view().dom() =~= self@.dom());
            }
        }
        res
    }
}

impl<V> View for StrMap<V> {
    type V = Map<Seq<char>, V>;

    open spec fn view(&self) -> Map<Seq<char>, V> {
        Map::new(
            |k: Seq<char>| self.key_seq().contains(k),
            |k: Seq<char>| self.val_seq()[self.key_seq().index_of(k)],
        )
    }
}

} // verus!
