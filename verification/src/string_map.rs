//! A map from strings to values that remembers the order in which its keys
//! were first put in.
use vstd::prelude::*;

use crate::text::same;

verus! {

/// A map with string keys. No key occurs twice; keys keep the order in which
/// they were first inserted.
#[derive(Debug)]
pub struct StringMap<V> {
    entries: Vec<(String, V)>,
}

/// The texts of the keys of a list of entries.
pub closed spec fn keys_of<V>(entries: Seq<(String, V)>) -> Seq<Seq<char>> {
    Seq::new(entries.len(), |i: int| entries[i].0@)
}

/// The position of the entry that `key` leads to.
pub open spec fn index_of_key(keys: Seq<Seq<char>>, key: Seq<char>) -> int {
    choose|i: int| 0 <= i < keys.len() && #[trigger] keys[i] == key
}

impl<V> StringMap<V> {
    /// The keys, in the order in which they were first inserted.
    pub closed spec fn keys(&self) -> Seq<Seq<char>> {
        keys_of(self.entries@)
    }

    #[verifier::type_invariant]
    spec fn distinct(&self) -> bool {
        keys_of(self.entries@).no_duplicates()
    }
}

impl<V> View for StringMap<V> {
    type V = Map<Seq<char>, V>;

    closed spec fn view(&self) -> Map<Seq<char>, V> {
        Map::new(
            |k: Seq<char>| self.keys().contains(k),
            |k: Seq<char>| self.entries@[index_of_key(self.keys(), k)].1,
        )
    }
}

impl<V> StringMap<V> {
    /// A map without entries.
    pub fn new() -> (m: StringMap<V>)
        ensures
            m@ == Map::<Seq<char>, V>::empty(),
            m.keys() == Seq::<Seq<char>>::empty(),
    {
        let entries: Vec<(String, V)> = Vec::new();
        let m = StringMap { entries };
        assert(m.keys() =~= Seq::<Seq<char>>::empty());
        assert(m@ =~= Map::<Seq<char>, V>::empty());
        m
    }

    /// What `keys` and the view have to do with each other: the keys are
    /// distinct, and they are the domain of the map.
    proof fn keys_are_domain(&self)
        requires
            self.keys().no_duplicates(),
        ensures
            self@.dom() == self.keys().to_set(),
            forall|i: int|
                0 <= i < self.keys().len() ==> self@.dom().contains(#[trigger] self.keys()[i]),
    {
        assert(self@.dom() =~= self.keys().to_set());
        assert forall|i: int| 0 <= i < self.keys().len() implies self@.dom().contains(
            #[trigger] self.keys()[i],
        ) by {
            assert(self.keys().contains(self.keys()[i]));
        }
    }

    /// The number of entries.
    pub fn len(&self) -> (n: usize)
        ensures
            n == self.keys().len(),
            self.keys().no_duplicates(),
            self@.dom() == self.keys().to_set(),
    {
        proof {
            use_type_invariant(self);
            self.keys_are_domain();
        }
        self.entries.len()
    }

    fn position(&self, key: &str) -> (r: Option<usize>)
        ensures
            match r {
                Some(i) => i < self.keys().len() && self.keys()[i as int] == key@,
                None => !self.keys().contains(key@),
            },
    {
        let mut i: usize = 0;
        while i < self.entries.len()
            invariant
                i <= self.entries@.len(),
                forall|j: int| 0 <= j < i ==> self.keys()[j] != key@,
            decreases self.entries@.len() - i,
        {
            if same(self.entries[i].0.as_str(), key) {
                return Some(i);
            }
            i += 1;
        }
        None
    }

    /// The value under `key`.
    pub fn get(&self, key: &str) -> (r: Option<&V>)
        ensures
            match r {
                Some(v) => self@.contains_key(key@) && *v == self@[key@],
                None => !self@.contains_key(key@),
            },
    {
        proof {
            use_type_invariant(self);
        }
        match self.position(key) {
            Some(i) => {
                assert(self.keys().contains(self.keys()[i as int]));
                assert(index_of_key(self.keys(), key@) == i);
                Some(&self.entries[i].1)
            },
            None => None,
        }
    }

    /// Whether there is a value under `key`.
    pub fn contains_key(&self, key: &str) -> (r: bool)
        ensures
            r == self@.contains_key(key@),
    {
        self.get(key).is_some()
    }

    /// The key of the entry at position `i`.
    pub fn key_at(&self, i: usize) -> (r: &String)
        requires
            i < self.keys().len(),
        ensures
            r@ == self.keys()[i as int],
            self@.contains_key(r@),
    {
        assert(self.keys().contains(self.keys()[i as int]));
        &self.entries[i].0
    }

    /// The value of the entry at position `i`.
    pub fn value_at(&self, i: usize) -> (r: &V)
        requires
            i < self.keys().len(),
        ensures
            self@.contains_key(self.keys()[i as int]),
            *r == self@[self.keys()[i as int]],
    {
        proof {
            use_type_invariant(self);
            assert(self.keys().contains(self.keys()[i as int]));
            assert(index_of_key(self.keys(), self.keys()[i as int]) == i);
        }
        &self.entries[i].1
    }

    /// Puts `value` under `key`, in place of what was there, which is handed
    /// back.
    pub fn insert(&mut self, key: String, value: V) -> (r: Option<V>)
        ensures
            r == (if old(self)@.contains_key(key@) {
                Some(old(self)@[key@])
            } else {
                None
            }),
            final(self)@ == old(self)@.insert(key@, value),
            final(self).keys() == if old(self)@.contains_key(key@) {
                old(self).keys()
            } else {
                old(self).keys().push(key@)
            },
    {
        proof {
            use_type_invariant(&*self);
        }
        let ghost before = *self;
        let found = self.position(key.as_str());
        let mut entries: Vec<(String, V)> = Vec::new();
        assert(keys_of(entries@).no_duplicates());
        std::mem::swap(&mut entries, &mut self.entries);
        let replaced: Option<V> = match found {
            Some(i) => {
                assert(before.keys().contains(before.keys()[i as int]));
                let mut entry = (key, value);
                std::mem::swap(&mut entries[i], &mut entry);
                assert(keys_of(entries@) =~= before.keys());
                Some(entry.1)
            },
            None => {
                entries.push((key, value));
                assert(keys_of(entries@) =~= before.keys().push(key@));
                None
            },
        };
        self.entries = entries;
        proof {
            let after = *self;
            assert(after.keys() == keys_of(entries@));
            assert(after.keys().no_duplicates());
            assert forall|k: Seq<char>| #[trigger]
                after@.contains_key(k) == before@.insert(key@, value).contains_key(k) by {
                if found is None {
                    let i = index_of_key(after.keys(), k);
                    let j = index_of_key(before.keys(), k);
                    if before.keys().contains(k) {
                        assert(after.keys()[j] == k);
                    }
                    if k == key@ {
                        assert(after.keys()[before.keys().len() as int] == k);
                    }
                }
            }
            assert forall|k: Seq<char>| #[trigger] after@.contains_key(k) implies after@[k]
                == before@.insert(key@, value)[k] by {
                let i = index_of_key(after.keys(), k);
                let j = index_of_key(before.keys(), k);
                assert(after.keys()[i] == k);
                if k != key@ {
                    assert(before.keys().contains(k));
                    assert(before.keys()[j] == k);
                    assert(after.keys()[j] == k);
                    assert(i == j);
                } else {
                    if found is Some {
                        assert(after.keys()[found->0 as int] == k);
                    } else {
                        assert(after.keys()[before.keys().len() as int] == k);
                    }
                }
            }
            assert(after@ =~= before@.insert(key@, value));
            if found is Some {
                assert(index_of_key(before.keys(), key@) == found->0);
            }
        }
        replaced
    }

    /// Takes all entries out and hands their values back, in the order of the
    /// keys.
    pub fn drain(&mut self) -> (r: Vec<V>)
        ensures
            final(self)@ == Map::<Seq<char>, V>::empty(),
            final(self).keys() == Seq::<Seq<char>>::empty(),
            r@.len() == old(self).keys().len(),
            forall|i: int|
                0 <= i < r@.len() ==> #[trigger] r@[i] == old(self)@[old(self).keys()[i]],
    {
        proof {
            use_type_invariant(&*self);
        }
        let ghost before = *self;
        let mut entries: Vec<(String, V)> = Vec::new();
        assert(keys_of(entries@).no_duplicates());
        std::mem::swap(&mut entries, &mut self.entries);
        proof {
            assert(self.keys() =~= Seq::<Seq<char>>::empty());
            assert(self@ =~= Map::<Seq<char>, V>::empty());
        }
        let mut values: Vec<V> = Vec::new();
        assert(entries@ =~= before.entries@.skip(0));
        while entries.len() > 0
            invariant
                values@.len() + entries@.len() == before.entries@.len(),
                entries@ == before.entries@.skip(values@.len() as int),
                forall|j: int|
                    0 <= j < values@.len() ==> #[trigger] values@[j] == before.entries@[j].1,
            decreases entries@.len(),
        {
            let entry = entries.remove(0);
            values.push(entry.1);
            assert(entries@ =~= before.entries@.skip(values@.len() as int));
        }
        proof {
            assert forall|i: int| 0 <= i < values@.len() implies #[trigger] values@[i]
                == before@[before.keys()[i]] by {
                assert(before.keys().contains(before.keys()[i]));
                assert(index_of_key(before.keys(), before.keys()[i]) == i);
            }
        }
        values
    }

    /// Takes the entry under `key` out and hands its value back.
    pub fn remove(&mut self, key: &str) -> (r: Option<V>)
        ensures
            final(self)@ == old(self)@.remove(key@),
            match r {
                Some(v) => old(self)@.contains_key(key@) && v == old(self)@[key@],
                None => !old(self)@.contains_key(key@),
            },
            final(self).keys() == if old(self)@.contains_key(key@) {
                old(self).keys().remove(index_of_key(old(self).keys(), key@))
            } else {
                old(self).keys()
            },
    {
        proof {
            use_type_invariant(&*self);
        }
        let ghost before = *self;
        let found = self.position(key);
        match found {
            None => {
                proof {
                    assert(before@ =~= before@.remove(key@));
                }
                None
            },
            Some(i) => {
                let mut entries: Vec<(String, V)> = Vec::new();
                assert(keys_of(entries@).no_duplicates());
                std::mem::swap(&mut entries, &mut self.entries);
                let entry = entries.remove(i);
                proof {
                    assert(keys_of(entries@) =~= before.keys().remove(i as int));
                    assert(before.keys().contains(before.keys()[i as int]));
                    assert(index_of_key(before.keys(), key@) == i);
                }
                self.entries = entries;
                proof {
                    let after = *self;
                    assert(after.keys() == before.keys().remove(i as int));
                    assert forall|k: Seq<char>| #[trigger]
                        after@.contains_key(k) == before@.remove(key@).contains_key(k) by {
                        let a = index_of_key(after.keys(), k);
                        let b = index_of_key(before.keys(), k);
                        if after.keys().contains(k) {
                            assert(after.keys()[a] == k);
                            assert(before.keys()[if a < i {
                                a
                            } else {
                                a + 1
                            }] == k);
                        }
                        if before.keys().contains(k) && k != key@ {
                            assert(after.keys()[if b < i {
                                b
                            } else {
                                b - 1
                            }] == k);
                        }
                    }
                    assert forall|k: Seq<char>| #[trigger] after@.contains_key(k) implies after@[k]
                        == before@.remove(key@)[k] by {
                        let a = index_of_key(after.keys(), k);
                        let b = index_of_key(before.keys(), k);
                        let c = if a < i {
                            a
                        } else {
                            a + 1
                        };
                        assert(after.keys()[a] == k);
                        assert(before.keys()[c] == k);
                        assert(before.keys()[b] == k);
                        assert(b == c);
                    }
                    assert(after@ =~= before@.remove(key@));
                }
                Some(entry.1)
            },
        }
    }
}

impl<V: Clone> Clone for StringMap<V> {
    fn clone(&self) -> (r: Self)
        ensures
            r.keys() == self.keys(),
            r@.dom() == self@.dom(),
            forall|k: Seq<char>| #[trigger] self@.contains_key(k) ==> cloned(self@[k], r@[k]),
    {
        proof {
            use_type_invariant(self);
        }
        let mut entries: Vec<(String, V)> = Vec::new();
        let mut i: usize = 0;
        while i < self.entries.len()
            invariant
                i <= self.entries@.len(),
                entries@.len() == i,
                forall|j: int|
                    0 <= j < i ==> (#[trigger] entries@[j]).0@ == self.entries@[j].0@ && cloned(
                        self.entries@[j].1,
                        entries@[j].1,
                    ),
            decreases self.entries@.len() - i,
        {
            let value = self.entries[i].1.clone();
            entries.push((self.entries[i].0.clone(), value));
            i += 1;
        }
        assert(keys_of(entries@) =~= self.keys());
        let r = StringMap { entries };
        assert(r@.dom() =~= self@.dom());
        assert forall|k: Seq<char>| #[trigger] self@.contains_key(k) implies cloned(
            self@[k],
            r@[k],
        ) by {
            let j = index_of_key(self.keys(), k);
            assert(self.keys()[j] == k);
            assert(r.entries@[j].0@ == self.entries@[j].0@);
        }
        r
    }
}

} // verus!
