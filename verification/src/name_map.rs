//! A map from names to values that keeps each name once, in the order the
//! names were first put in.
use crate::entries::{insert_entry, key_position, lemma_key_position, lookup};
use crate::text::text_eq;
use vstd::prelude::*;

verus! {

/// Entries whose keys are all different.
pub open spec fn keys_distinct<V>(entries: Seq<(Seq<char>, V)>) -> bool {
    forall|i: int, j: int|
        0 <= i < entries.len() && 0 <= j < entries.len() && i != j ==> (#[trigger] entries[i]).0
            != (#[trigger] entries[j]).0
}

/// Inserting keeps keys distinct.
pub proof fn lemma_insert_keeps_keys_distinct<V>(entries: Seq<(Seq<char>, V)>, k: Seq<char>, v: V)
    requires
        keys_distinct(entries),
    ensures
        keys_distinct(insert_entry(entries, k, v)),
{
    lemma_key_position(entries, k);
    let after = insert_entry(entries, k, v);
    assert forall|i: int, j: int|
        0 <= i < after.len() && 0 <= j < after.len() && i != j implies (#[trigger] after[i]).0
        != (#[trigger] after[j]).0 by {
        if i < entries.len() && j < entries.len() {
            assert(entries[i] == entries[i]);
            assert(entries[j] == entries[j]);
        }
    }
}

/// A name map: each name at most once, with its value.
pub struct NameMap<V> {
    entries: Vec<(String, V)>,
}

impl<V> View for NameMap<V> {
    type V = Seq<(Seq<char>, V)>;

    closed spec fn view(&self) -> Seq<(Seq<char>, V)> {
        self.entries@.map_values(|e: (String, V)| (e.0@, e.1))
    }
}

impl<V> NameMap<V> {
    #[verifier::type_invariant]
    spec fn names_once(self) -> bool {
        keys_distinct(self@)
    }

    /// An empty map.
    pub fn new() -> (m: Self)
        ensures
            m@ == Seq::<(Seq<char>, V)>::empty(),
    {
        let m = NameMap { entries: Vec::new() };
        assert(m@ =~= Seq::<(Seq<char>, V)>::empty());
        m
    }

    /// The number of names in the map.
    pub fn len(&self) -> (n: usize)
        ensures
            n == self@.len(),
    {
        self.entries.len()
    }

    fn position(&self, k: &str) -> (r: Option<usize>)
        ensures
            match r {
                Some(i) => key_position(self@, k@) == Some(i as int) && i < self.entries@.len(),
                None => key_position(self@, k@) is None,
            },
    {
        let ghost view = self@;
        proof {
            lemma_key_position(view, k@);
        }
        let mut i: usize = 0;
        while i < self.entries.len()
            invariant
                i <= self.entries@.len(),
                view == self@,
                view.len() == self.entries@.len(),
                forall|j: int| 0 <= j < i ==> (#[trigger] view[j]).0 != k@,
                key_position(view, k@) matches Some(p) ==> 0 <= p < view.len() && view[p].0 == k@
                    && forall|j: int| 0 <= j < p ==> view[j].0 != k@,
                key_position(view, k@) is None ==> forall|j: int|
                    0 <= j < view.len() ==> view[j].0 != k@,
            decreases self.entries@.len() - i,
        {
            assert(view[i as int].0 == self.entries@[i as int].0@);
            if text_eq(self.entries[i].0.as_str(), k) {
                return Some(i);
            }
            i = i + 1;
        }
        None
    }

    /// The value under `k`, if `k` is in the map.
    pub fn get(&self, k: &str) -> (r: Option<&V>)
        ensures
            match r {
                Some(v) => lookup(self@, k@) == Some(*v),
                None => lookup(self@, k@) is None,
            },
    {
        match self.position(k) {
            Some(i) => {
                assert(self@[i as int].1 == self.entries@[i as int].1);
                Some(&self.entries[i].1)
            },
            None => None,
        }
    }

    /// Puts `v` under `k`: a name already in the map keeps its place and takes
    /// the new value, a new name goes last.
    pub fn insert(&mut self, k: String, v: V)
        ensures
            final(self)@ == insert_entry(old(self)@, k@, v),
    {
        proof {
            use_type_invariant(&*self);
        }
        let ghost before = self@;
        let ghost key = k@;
        let found = self.position(k.as_str());
        let mut entries = Vec::new();
        std::mem::swap(&mut entries, &mut self.entries);
        match found {
            Some(i) => {
                entries.set(i, (k, v));
            },
            None => {
                entries.push((k, v));
            },
        }
        proof {
            assert(entries@.map_values(|e: (String, V)| (e.0@, e.1)) =~= insert_entry(
                before,
                key,
                v,
            ));
            lemma_insert_keeps_keys_distinct(before, key, v);
        }
        self.entries = entries;
    }

    /// The names and values, in order.
    pub fn entries(&self) -> (r: &Vec<(String, V)>)
        ensures
            r@.map_values(|e: (String, V)| (e.0@, e.1)) == self@,
            keys_distinct(self@),
    {
        proof {
            use_type_invariant(self);
        }
        &self.entries
    }
}

} // verus!
