//! Tables with text keys, in which no key occurs twice.

use crate::ordered::{
    distinct_keys, has_key, lemma_place, lemma_put, lemma_without, place, put, value_at, without,
};
use crate::text::same_text;
use vstd::prelude::*;

verus! {

/// A table from text to values.
pub struct Table<V> {
    entries: Vec<(String, V)>,
}

/// The keys and values of the entries.
pub open spec fn keyed<V>(entries: Seq<(String, V)>) -> Seq<(Seq<char>, V)> {
    entries.map_values(|e: (String, V)| (e.0@, e.1))
}

impl<V> View for Table<V> {
    type V = Seq<(Seq<char>, V)>;

    closed spec fn view(&self) -> Seq<(Seq<char>, V)> {
        keyed(self.entries@)
    }
}

impl<V> Table<V> {
    /// No key occurs twice.
    #[verifier::type_invariant]
    spec fn inv(&self) -> bool {
        distinct_keys(keyed(self.entries@))
    }

    pub fn new() -> (r: Table<V>)
        ensures
            r@ == Seq::<(Seq<char>, V)>::empty(),
    {
        let entries: Vec<(String, V)> = Vec::new();
        assert(keyed(entries@) == Seq::<(Seq<char>, V)>::empty());
        Table { entries }
    }

    /// How many entries there are.
    pub fn len(&self) -> (n: usize)
        ensures
            n == self@.len(),
            distinct_keys(self@),
    {
        proof {
            use_type_invariant(self);
        }
        self.entries.len()
    }

    pub fn is_empty(&self) -> (r: bool)
        ensures
            r == (self@.len() == 0),
    {
        self.entries.len() == 0
    }

    /// The key at a place.
    pub fn key_at(&self, i: usize) -> (r: &String)
        requires
            i < self@.len(),
        ensures
            r@ == self@[i as int].0,
    {
        &self.entries[i].0
    }

    /// The value at a place.
    pub fn value_at(&self, i: usize) -> (r: &V)
        requires
            i < self@.len(),
        ensures
            *r == self@[i as int].1,
    {
        &self.entries[i].1
    }

    /// The place of a key.
    fn find(&self, key: &str) -> (r: Option<usize>)
        ensures
            r is Some <==> has_key(self@, key@),
            r matches Some(i) ==> i == place(self@, key@) && i < self@.len(),
    {
        let mut i: usize = 0;
        while i < self.entries.len()
            invariant
                i <= self.entries.len(),
                forall|j: int| 0 <= j < i ==> (#[trigger] self@[j]).0 != key@,
            decreases self.entries.len() - i,
        {
            if same_text(self.entries[i].0.as_str(), key) {
                proof {
                    assert(self@[i as int].0 == key@);
                    lemma_place(self@, key@);
                    let p = place(self@, key@);
                    if p < i {
                        assert(self@[p].0 != key@);
                    }
                }
                return Some(i);
            }
            i = i + 1;
        }
        None
    }

    pub fn contains_key(&self, key: &str) -> (r: bool)
        ensures
            r == has_key(self@, key@),
    {
        self.find(key).is_some()
    }

    /// The value under a key.
    pub fn get(&self, key: &str) -> (r: Option<&V>)
        ensures
            r == match value_at(self@, key@) {
                Some(v) => Some(&v),
                None => None::<&V>,
            },
    {
        match self.find(key) {
            Some(i) => Some(&self.entries[i].1),
            None => None,
        }
    }

    /// Puts a value under a key.
    pub fn insert(&mut self, key: String, value: V)
        ensures
            final(self)@ == put(old(self)@, key@, value),
    {
        proof {
            use_type_invariant(&*self);
            lemma_put(self@, key@, value);
            lemma_place(self@, key@);
        }
        let place = self.find(key.as_str());
        let mut entries: Vec<(String, V)> = Vec::new();
        let ghost before = self@;
        let ghost inner = self.entries@;
        std::mem::swap(&mut entries, &mut self.entries);
        match place {
            Some(i) => {
                let ghost k = key@;
                entries[i] = (key, value);
                assert(keyed(entries@) == put(before, k, value));
            },
            None => {
                let ghost k = key@;
                entries.push((key, value));
                assert(keyed(entries@) == put(before, k, value));
            },
        }
        self.entries = entries;
    }

    /// Takes the value under a key out of the table.
    pub fn remove(&mut self, key: &str) -> (r: Option<V>)
        ensures
            r == value_at(old(self)@, key@),
            final(self)@ == without(old(self)@, key@),
    {
        proof {
            use_type_invariant(&*self);
            lemma_without(self@, key@);
            lemma_place(self@, key@);
        }
        match self.find(key) {
            Some(i) => {
                let mut entries: Vec<(String, V)> = Vec::new();
                let ghost before = self@;
                std::mem::swap(&mut entries, &mut self.entries);
                let (_, value) = entries.remove(i);
                assert(keyed(entries@) == without(before, key@));
                self.entries = entries;
                Some(value)
            },
            None => None,
        }
    }
}

} // verus!
