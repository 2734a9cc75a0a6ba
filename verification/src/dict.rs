//! A small keyed collection that remembers the order in which its keys
//! arrived.

use vstd::prelude::*;
use crate::assoc::{distinct, find, holds, index_of, put, lemma_find_at, lemma_find_none};
use crate::text::same_text;

verus! {

/// Values under text keys. A key occurs at most once; a key that is set again
/// keeps its place.
#[derive(Debug)]
pub struct Dict<V> {
    items: Vec<(String, V)>,
}

impl<V> View for Dict<V> {
    type V = Seq<(Seq<char>, V)>;

    closed spec fn view(&self) -> Seq<(Seq<char>, V)> {
        Seq::new(self.items@.len(), |i: int| (self.items@[i].0@, self.items@[i].1))
    }
}

impl<V> Dict<V> {
    #[verifier::type_invariant]
    spec fn well_formed(&self) -> bool {
        distinct(self@)
    }

    /// The collection without entries.
    pub fn new() -> (dict: Self)
        ensures
            dict@ == Seq::<(Seq<char>, V)>::empty(),
    {
        let dict = Dict { items: Vec::new() };
        assert(dict@ =~= Seq::<(Seq<char>, V)>::empty());
        dict
    }

    /// The number of entries.
    pub fn len(&self) -> (n: usize)
        ensures
            n == self@.len(),
            distinct(self@),
    {
        proof {
            use_type_invariant(self);
        }
        self.items.len()
    }

    /// Where `key` stands, if it is present.
    fn position(&self, key: &str) -> (at: Option<usize>)
        ensures
            distinct(self@),
            match at {
                Some(i) => i < self@.len() && self@[i as int].0 == key@ && holds(self@, key@)
                    && index_of(self@, key@) == i,
                None => !holds(self@, key@),
            },
    {
        proof {
            use_type_invariant(self);
        }
        let mut i: usize = 0;
        while i < self.items.len()
            invariant
                distinct(self@),
                i <= self.items@.len(),
                forall|j: int| 0 <= j < i ==> (#[trigger] self@[j]).0 != key@,
            decreases self.items@.len() - i,
        {
            if same_text(self.items[i].0.as_str(), key) {
                proof {
                    lemma_find_at(self@, i as int);
                }
                return Some(i);
            }
            i += 1;
        }
        proof {
            lemma_find_none(self@, key@);
        }
        None
    }

    /// The value under `key`.
    pub fn get(&self, key: &str) -> (value: Option<&V>)
        ensures
            distinct(self@),
            match value {
                Some(v) => find(self@, key@) == Some(*v),
                None => find(self@, key@).is_none(),
            },
    {
        match self.position(key) {
            Some(i) => Some(&self.items[i].1),
            None => None,
        }
    }

    /// Whether `key` is present.
    pub fn contains_key(&self, key: &str) -> (present: bool)
        ensures
            present == holds(self@, key@),
    {
        self.position(key).is_some()
    }

    /// Stores `value` under `key`, in place of what was there.
    pub fn insert(&mut self, key: String, value: V)
        ensures
            final(self)@ == put(old(self)@, key@, value),
            distinct(old(self)@),
            distinct(final(self)@),
    {
        let found = self.position(key.as_str());
        let ghost before = self@;
        let mut items = Vec::new();
        std::mem::swap(&mut items, &mut self.items);
        match found {
            Some(i) => {
                items.set(i, (key, value));
            },
            None => {
                items.push((key, value));
            },
        }
        proof {
            let after = Seq::new(items@.len(), |i: int| (items@[i].0@, items@[i].1));
            assert(after =~= put(before, key@, value));
            crate::assoc::lemma_put_distinct(before, key@, value);
        }
        self.items = items;
    }

    /// The key at position `i`.
    pub fn key_at(&self, i: usize) -> (key: &String)
        requires
            i < self@.len(),
        ensures
            key@ == self@[i as int].0,
    {
        &self.items[i].0
    }

    /// The value at position `i`.
    pub fn value_at(&self, i: usize) -> (value: &V)
        requires
            i < self@.len(),
        ensures
            *value == self@[i as int].1,
    {
        &self.items[i].1
    }

    /// Removes every entry.
    pub fn clear(&mut self)
        ensures
            final(self)@ == Seq::<(Seq<char>, V)>::empty(),
    {
        self.items = Vec::new();
        assert(self@ =~= Seq::<(Seq<char>, V)>::empty());
    }
}

} // verus!
