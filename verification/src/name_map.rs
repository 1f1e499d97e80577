//! A map from names to values that remembers the order in which the names came.

use vstd::prelude::*;

verus! {

/// A map keyed by name. No name occurs twice; a name that is set again keeps its
/// place and takes the new value.
pub struct NameMap<V: View> {
    entries: Vec<(String, V)>,
}

impl<V: View> View for NameMap<V> {
    type V = Map<Seq<char>, V::V>;

    closed spec fn view(&self) -> Map<Seq<char>, V::V> {
        Map::new(
            |name: Seq<char>| self.keys().contains(name),
            |name: Seq<char>| self.entries@[self.keys().index_of(name)].1@,
        )
    }
}

impl<V: View> NameMap<V> {
    #[verifier::type_invariant]
    spec fn well_formed(self) -> bool {
        self.keys().no_duplicates()
    }

    /// The names, in the order in which they were first set.
    pub closed spec fn keys(self) -> Seq<Seq<char>> {
        Seq::new(self.entries@.len(), |i: int| self.entries@[i].0@)
    }

    /// The values, each at the place of its name in [`Self::keys`].
    pub closed spec fn values(self) -> Seq<V::V> {
        Seq::new(self.entries@.len(), |i: int| self.entries@[i].1@)
    }

    /// How many names the map holds.
    pub open spec fn size(self) -> nat {
        self.keys().len()
    }

    proof fn lemma_model(self)
        requires
            self.well_formed(),
        ensures
            self.keys().len() == self.values().len(),
            self.keys().no_duplicates(),
            self@.dom() == self.keys().to_set(),
            self@.dom().finite(),
            self@.len() == self.keys().len(),
            forall|i: int|
                0 <= i < self.keys().len() ==> #[trigger] self@.contains_key(self.keys()[i])
                    && self@[self.keys()[i]] == self.values()[i],
    {
        let keys = self.keys();
        keys.unique_seq_to_set();
    }

    /// The empty map.
    pub fn new() -> (map: Self)
        ensures
            map@ == Map::<Seq<char>, V::V>::empty(),
            map.keys() == Seq::<Seq<char>>::empty(),
            map.values() == Seq::<V::V>::empty(),
    {
        NameMap { entries: Vec::new() }
    }

    /// How many names the map holds.
    pub fn len(&self) -> (n: usize)
        ensures
            n == self@.len(),
            n == self.size(),
            self.size() == self.values().len(),
            self@.dom().finite(),
            self.keys().no_duplicates(),
            forall|name: Seq<char>| self@.contains_key(name) <==> self.keys().contains(name),
    {
        proof {
            use_type_invariant(self);
            self.lemma_model();
        }
        self.entries.len()
    }

    /// The place of `name` among the names, if the map holds it.
    fn find(&self, name: &String) -> (r: Option<usize>)
        ensures
            match r {
                Some(i) => i < self.keys().len() && self.keys()[i as int] == name@,
                None => !self.keys().contains(name@),
            },
    {
        let mut i: usize = 0;
        while i < self.entries.len()
            invariant
                i <= self.entries.len(),
                forall|j: int| 0 <= j < i ==> self.keys()[j] != name@,
            decreases self.entries.len() - i,
        {
            if self.entries[i].0 == *name {
                return Some(i);
            }
            i += 1;
        }
        None
    }

    /// Whether the map holds `name`.
    pub fn contains_key(&self, name: &str) -> (r: bool)
        ensures
            r == self@.contains_key(name@),
    {
        let owned = name.to_owned();
        self.find(&owned).is_some()
    }

    /// The value of `name`, if the map holds it.
    pub fn get(&self, name: &str) -> (r: Option<&V>)
        ensures
            match r {
                Some(value) => self@.contains_key(name@) && self@[name@] == value@,
                None => !self@.contains_key(name@),
            },
    {
        proof {
            use_type_invariant(self);
            self.lemma_model();
        }
        let owned = name.to_owned();
        match self.find(&owned) {
            Some(i) => Some(&self.entries[i].1),
            None => None,
        }
    }

    /// Sets the value of `name`. A name that the map held keeps its place.
    pub fn insert(&mut self, name: String, value: V)
        ensures
            final(self)@ == old(self)@.insert(name@, value@),
            final(self).keys() == (if old(self).keys().contains(name@) {
                old(self).keys()
            } else {
                old(self).keys().push(name@)
            }),
            final(self).values() == (if old(self).keys().contains(name@) {
                old(self).values().update(old(self).keys().index_of(name@), value@)
            } else {
                old(self).values().push(value@)
            }),
    {
        proof {
            use_type_invariant(&*self);
            self.lemma_model();
        }
        let found = self.find(&name);
        let mut entries: Vec<(String, V)> = Vec::new();
        core::mem::swap(&mut self.entries, &mut entries);
        match found {
            Some(i) => {
                entries.set(i, (name, value));
                assert(Seq::new(entries@.len(), |i: int| entries@[i].0@) =~= old(self).keys());
                core::mem::swap(&mut self.entries, &mut entries);
            },
            None => {
                entries.push((name, value));
                assert(Seq::new(entries@.len(), |i: int| entries@[i].0@) =~= old(self).keys().push(
                    name@,
                ));
                core::mem::swap(&mut self.entries, &mut entries);
                assert(self@ =~= old(self)@.insert(name@, value@)) by {
                    assert forall|k: Seq<char>| self@.contains_key(k) <==> old(self)@.insert(
                        name@,
                        value@,
                    ).contains_key(k) by {
                        if old(self).keys().contains(k) {
                            let p = old(self).keys().index_of(k);
                            assert(self.keys()[p] == k);
                        }
                        if k == name@ {
                            assert(self.keys()[self.keys().len() - 1] == k);
                        }
                    }
                }
            },
        }
    }

    /// Forgets every name.
    pub fn clear(&mut self)
        ensures
            final(self)@ == Map::<Seq<char>, V::V>::empty(),
            final(self).keys() == Seq::<Seq<char>>::empty(),
            final(self).values() == Seq::<V::V>::empty(),
    {
        let mut entries: Vec<(String, V)> = Vec::new();
        core::mem::swap(&mut self.entries, &mut entries);
    }

    /// The name at place `i`.
    pub fn name_at(&self, i: usize) -> (name: &String)
        requires
            i < self.size(),
        ensures
            name@ == self.keys()[i as int],
            self@.contains_key(name@),
    {
        proof {
            use_type_invariant(self);
            self.lemma_model();
        }
        &self.entries[i].0
    }

    /// The value at place `i`.
    pub fn value_at(&self, i: usize) -> (value: &V)
        requires
            i < self.size(),
        ensures
            value@ == self.values()[i as int],
            self@.contains_key(self.keys()[i as int]),
            self@[self.keys()[i as int]] == value@,
    {
        proof {
            use_type_invariant(self);
            self.lemma_model();
        }
        &self.entries[i].1
    }

    /// The names, in the order in which they were first set.
    pub fn names(&self) -> (out: Vec<String>)
        ensures
            out@.len() == self.size(),
            forall|i: int| 0 <= i < out@.len() ==> (#[trigger] out@[i])@ == self.keys()[i],
            forall|name: Seq<char>| self@.contains_key(name) <==> self.keys().contains(name),
            self.keys().no_duplicates(),
    {
        proof {
            use_type_invariant(self);
            self.lemma_model();
        }
        let mut out: Vec<String> = Vec::new();
        let mut i: usize = 0;
        while i < self.entries.len()
            invariant
                i <= self.entries.len(),
                out@.len() == i,
                forall|j: int| 0 <= j < i ==> (#[trigger] out@[j])@ == self.keys()[j],
            decreases self.entries.len() - i,
        {
            out.push(self.entries[i].0.clone());
            i += 1;
        }
        out
    }
}

} // verus!
