//! A map from text keys to values, kept in insertion order; inserting
//! under a present key replaces its value.

use vstd::prelude::*;
use crate::text::str_eq;

verus! {

struct KeyedEntry<V> {
    key: String,
    value: V,
}

/// A map from text keys to values.
pub struct KeyedMap<V> {
    entries: Vec<KeyedEntry<V>>,
    model: Ghost<Map<Seq<char>, V>>,
}

impl<V> View for KeyedMap<V> {
    type V = Map<Seq<char>, V>;

    closed spec fn view(&self) -> Map<Seq<char>, V> {
        self.model@
    }
}

impl<V> KeyedMap<V> {
    /// Each key is held once, and the entries agree with the view.
    pub closed spec fn wf(&self) -> bool {
        &&& forall|i: int, j: int|
            0 <= i < self.entries@.len() && 0 <= j < self.entries@.len() && i != j ==> self.entries@[i].key@
                != self.entries@[j].key@
        &&& forall|i: int|
            #![trigger self.entries@[i]]
            0 <= i < self.entries@.len() ==> self.model@.contains_key(self.entries@[i].key@)
                && self.model@[self.entries@[i].key@] == self.entries@[i].value
        &&& forall|k: Seq<char>|
            #[trigger] self.model@.contains_key(k) ==> exists|i: int|
                0 <= i < self.entries@.len() && self.entries@[i].key@ == k
    }

    /// The number of entries.
    pub closed spec fn size(&self) -> nat {
        self.entries@.len()
    }

    /// The key of the entry at position `i`.
    pub closed spec fn key_spec(&self, i: int) -> Seq<char> {
        self.entries@[i].key@
    }

    pub fn new() -> (r: KeyedMap<V>)
        ensures
            r.wf(),
            r@ == Map::<Seq<char>, V>::empty(),
    {
        KeyedMap { entries: Vec::new(), model: Ghost(Map::empty()) }
    }

    fn position(&self, key: &str) -> (r: Option<usize>)
        requires
            self.wf(),
        ensures
            r matches Some(i) ==> i < self.entries@.len() && self.entries@[i as int].key@ == key@,
            r is None ==> !self@.contains_key(key@),
    {
        let mut i: usize = 0;
        while i < self.entries.len()
            invariant
                self.wf(),
                i <= self.entries@.len(),
                forall|j: int| 0 <= j < i ==> self.entries@[j].key@ != key@,
            decreases self.entries@.len() - i,
        {
            if str_eq(self.entries[i].key.as_str(), key) {
                return Some(i);
            }
            i = i + 1;
        }
        assert(!self@.contains_key(key@)) by {
            if self@.contains_key(key@) {
                let j = choose|j: int| 0 <= j < self.entries@.len() && self.entries@[j].key@ == key@;
                assert(self.entries@[j].key@ != key@);
            }
        }
        None
    }

    /// Sets the value under `key`, replacing any earlier one.
    pub fn insert(&mut self, key: String, value: V)
        requires
            old(self).wf(),
        ensures
            final(self).wf(),
            final(self)@ == old(self)@.insert(key@, value),
    {
        let ghost k = key@;
        let ghost before = self.entries@;
        match self.position(key.as_str()) {
            Some(i) => {
                self.entries.set(i, KeyedEntry { key, value });
                self.model = Ghost(self.model@.insert(k, value));
                proof {
                    assert forall|j: int| 0 <= j < before.len() && j != i implies self.entries@[j] == before[j] by {}
                    assert forall|kk: Seq<char>| #[trigger] self.model@.contains_key(kk) implies exists|j: int|
                        0 <= j < self.entries@.len() && self.entries@[j].key@ == kk by {
                        if kk != k {
                            let j = choose|j: int| 0 <= j < before.len() && before[j].key@ == kk;
                            assert(self.entries@[j] == before[j]);
                        } else {
                            assert(self.entries@[i as int].key@ == kk);
                        }
                    }
                }
            },
            None => {
                self.entries.push(KeyedEntry { key, value });
                self.model = Ghost(self.model@.insert(k, value));
                proof {
                    assert forall|j: int| 0 <= j < before.len() implies self.entries@[j] == before[j] by {}
                    assert forall|kk: Seq<char>| #[trigger] self.model@.contains_key(kk) implies exists|j: int|
                        0 <= j < self.entries@.len() && self.entries@[j].key@ == kk by {
                        if kk != k {
                            let j = choose|j: int| 0 <= j < before.len() && before[j].key@ == kk;
                            assert(self.entries@[j] == before[j]);
                        } else {
                            assert(self.entries@[before.len() as int].key@ == kk);
                        }
                    }
                }
            },
        }
    }

    /// The value under `key`, if any.
    pub fn get(&self, key: &str) -> (r: Option<&V>)
        requires
            self.wf(),
        ensures
            r matches Some(v) ==> self@.contains_key(key@) && *v == self@[key@],
            r is None ==> !self@.contains_key(key@),
    {
        match self.position(key) {
            Some(i) => Some(&self.entries[i].value),
            None => None,
        }
    }

    /// Whether the map holds no entry.
    pub fn is_empty(&self) -> (r: bool)
        requires
            self.wf(),
        ensures
            r == (self@ == Map::<Seq<char>, V>::empty()),
    {
        if self.entries.len() == 0 {
            assert(self@ =~= Map::<Seq<char>, V>::empty()) by {
                assert forall|k: Seq<char>| !self@.contains_key(k) by {
                    if self@.contains_key(k) {
                        let j = choose|j: int| 0 <= j < self.entries@.len() && self.entries@[j].key@ == k;
                    }
                }
            }
            true
        } else {
            assert(self@.contains_key(self.entries@[0].key@));
            false
        }
    }

    /// The number of entries, each under its own key.
    pub fn len(&self) -> (r: usize)
        ensures
            r == self.size(),
    {
        self.entries.len()
    }

    /// The key of the entry at position `i`, in insertion order.
    pub fn key_at(&self, i: usize) -> (r: &String)
        requires
            self.wf(),
            i < self.size(),
        ensures
            r@ == self.key_spec(i as int),
            self@.contains_key(r@),
    {
        &self.entries[i].key
    }

    /// The value of the entry at position `i`, in insertion order.
    pub fn value_at(&self, i: usize) -> (r: &V)
        requires
            self.wf(),
            i < self.size(),
        ensures
            *r == self@[self.key_spec(i as int)],
    {
        &self.entries[i].value
    }
}

} // verus!
