//! Maps and sets keyed by names.
//!
//! The entries are kept in a vector, in the order in which their names were
//! first inserted, and no name occurs twice. The contracts see a `NameMap` as
//! the mathematical map from names to values, and a `NameSet` as the set of
//! its names.

use vstd::prelude::*;

verus! {

/// Whether no two entries have the same name.
pub open spec fn names_distinct<V>(entries: Seq<(String, V)>) -> bool {
    forall|i: int, j: int|
        0 <= i < j < entries.len() ==> (#[trigger] entries[i]).0@ != (#[trigger] entries[j]).0@
}

/// Whether `entries` lists the map `m`: each entry is a pair of `m`, each name
/// of `m` has an entry, and no name occurs twice.
pub open spec fn lists<V>(entries: Seq<(String, V)>, m: Map<Seq<char>, V>) -> bool {
    &&& names_distinct(entries)
    &&& forall|i: int|
        0 <= i < entries.len() ==> m.contains_key((#[trigger] entries[i]).0@) && m[entries[i].0@]
            == entries[i].1
    &&& forall|name: Seq<char>| #[trigger]
        m.contains_key(name) ==> exists|i: int| 0 <= i < entries.len() && entries[i].0@ == name
}

/// Whether `entries` has an entry named `name` at index `i`.
pub open spec fn named_at<V>(entries: Seq<(String, V)>, name: Seq<char>, i: int) -> bool {
    0 <= i < entries.len() && entries[i].0@ == name
}

/// A map from names to values.
#[derive(Debug)]
pub struct NameMap<V> {
    entries: Vec<(String, V)>,
}

impl<V> View for NameMap<V> {
    type V = Map<Seq<char>, V>;

    closed spec fn view(&self) -> Map<Seq<char>, V> {
        Map::new(
            |name: Seq<char>| exists|i: int| named_at(self.entries@, name, i),
            |name: Seq<char>| self.entries@[choose|i: int| named_at(self.entries@, name, i)].1,
        )
    }
}

impl<V> NameMap<V> {
    #[verifier::type_invariant]
    spec fn well_formed(self) -> bool {
        names_distinct(self.entries@)
    }

    proof fn lemma_lists(&self)
        requires
            names_distinct(self.entries@),
        ensures
            lists(self.entries@, self@),
    {
        let entries = self.entries@;
        assert forall|i: int| 0 <= i < entries.len() implies self@.contains_key(
            (#[trigger] entries[i]).0@,
        ) && self@[entries[i].0@] == entries[i].1 by {
            let name = entries[i].0@;
            assert(named_at(entries, name, i));
        }
    }

    /// Makes an empty map.
    pub fn new() -> (m: NameMap<V>)
        ensures
            m@ == Map::<Seq<char>, V>::empty(),
    {
        NameMap { entries: Vec::new() }
    }

    /// The index of the entry named `name`, if there is one.
    fn position(&self, name: &String) -> (found: Option<usize>)
        ensures
            match found {
                Some(i) => named_at(self.entries@, name@, i as int),
                None => forall|i: int| !named_at(self.entries@, name@, i),
            },
    {
        let mut i: usize = 0;
        while i < self.entries.len()
            invariant
                0 <= i <= self.entries.len(),
                forall|k: int| 0 <= k < i ==> !named_at(self.entries@, name@, k),
            decreases self.entries.len() - i,
        {
            if self.entries[i].0 == *name {
                return Some(i);
            }
            i += 1;
        }
        None
    }

    /// Whether the map has a value under `name`.
    pub fn contains_key(&self, name: &String) -> (found: bool)
        ensures
            found == self@.contains_key(name@),
    {
        proof {
            use_type_invariant(self);
            self.lemma_lists();
        }
        self.position(name).is_some()
    }

    /// The value under `name`, if there is one.
    pub fn get(&self, name: &String) -> (found: Option<&V>)
        ensures
            match found {
                Some(value) => self@.contains_key(name@) && *value == self@[name@],
                None => !self@.contains_key(name@),
            },
    {
        proof {
            use_type_invariant(self);
            self.lemma_lists();
        }
        match self.position(name) {
            Some(i) => Some(&self.entries[i].1),
            None => None,
        }
    }

    /// Puts `value` under `name`; a value that was there before is dropped.
    pub fn insert(&mut self, name: String, value: V)
        ensures
            final(self)@ == old(self)@.insert(name@, value),
    {
        proof {
            use_type_invariant(&*self);
            self.lemma_lists();
        }
        let ghost before = self.entries@;
        let ghost slot: int;
        match self.position(&name) {
            Some(i) => {
                proof {
                    slot = i as int;
                }
                let mut entries: Vec<(String, V)> = Vec::new();
                core::mem::swap(&mut entries, &mut self.entries);
                entries.set(i, (name, value));
                self.entries = entries;
            },
            None => {
                proof {
                    slot = before.len() as int;
                }
                let mut entries: Vec<(String, V)> = Vec::new();
                core::mem::swap(&mut entries, &mut self.entries);
                entries.push((name, value));
                self.entries = entries;
            },
        }
        proof {
            let after = self.entries@;
            self.lemma_lists();
            assert(self@ =~= old(self)@.insert(name@, value)) by {
                assert forall|key: Seq<char>| self@.contains_key(key) <==> old(self)@.insert(
                    name@,
                    value,
                ).contains_key(key) by {
                    if old(self)@.contains_key(key) {
                        let i = choose|i: int| 0 <= i < before.len() && before[i].0@ == key;
                        assert(after[i].0@ == key);
                    }
                    if key == name@ {
                        assert(after[slot].0@ == key);
                    }
                }
            }
        }
    }

    /// Whether the map has no entries.
    pub fn is_empty(&self) -> (empty: bool)
        ensures
            empty == (self@ == Map::<Seq<char>, V>::empty()),
    {
        proof {
            use_type_invariant(self);
            self.lemma_lists();
        }
        let empty = self.entries.len() == 0;
        proof {
            if empty {
                assert(self@ =~= Map::<Seq<char>, V>::empty());
            } else {
                assert(self@.contains_key(self.entries@[0].0@));
            }
        }
        empty
    }

    /// The entries, in the order in which their names were first inserted.
    pub fn entries(&self) -> (entries: &Vec<(String, V)>)
        ensures
            lists(entries@, self@),
    {
        proof {
            use_type_invariant(self);
            self.lemma_lists();
        }
        &self.entries
    }

    /// The map that holds, under each name of this map, what `f` makes of the
    /// value that stands under it here.
    pub fn map_values<U, F: Fn(&V) -> U>(&self, f: F) -> (mapped: NameMap<U>)
        requires
            forall|name: Seq<char>| #[trigger]
                self@.contains_key(name) ==> call_requires(f, (&self@[name],)),
        ensures
            mapped@.dom() == self@.dom(),
            forall|name: Seq<char>| #[trigger]
                self@.contains_key(name) ==> call_ensures(f, (&self@[name],), mapped@[name]),
    {
        proof {
            use_type_invariant(self);
            self.lemma_lists();
        }
        let mut entries: Vec<(String, U)> = Vec::new();
        let mut i: usize = 0;
        while i < self.entries.len()
            invariant
                0 <= i <= self.entries.len(),
                entries@.len() == i,
                lists(self.entries@, self@),
                forall|name: Seq<char>| #[trigger]
                    self@.contains_key(name) ==> call_requires(f, (&self@[name],)),
                forall|k: int|
                    0 <= k < i ==> (#[trigger] entries@[k]).0@ == self.entries@[k].0@
                        && call_ensures(f, (&self.entries@[k].1,), entries@[k].1),
            decreases self.entries.len() - i,
        {
            let value = f(&self.entries[i].1);
            entries.push((self.entries[i].0.clone(), value));
            i += 1;
        }
        let mapped = NameMap { entries };
        proof {
            mapped.lemma_lists();
            assert(mapped@.dom() =~= self@.dom()) by {
                assert forall|name: Seq<char>| mapped@.contains_key(name) <==> self@.contains_key(
                    name,
                ) by {
                    if self@.contains_key(name) {
                        let k = choose|k: int|
                            0 <= k < self.entries@.len() && self.entries@[k].0@ == name;
                        assert(mapped.entries@[k].0@ == name);
                    }
                }
            }
        }
        mapped
    }
}

/// A set of names.
#[derive(Debug)]
pub struct NameSet {
    names: NameMap<()>,
}

impl View for NameSet {
    type V = Set<Seq<char>>;

    closed spec fn view(&self) -> Set<Seq<char>> {
        self.names@.dom()
    }
}

impl NameSet {
    /// Makes an empty set.
    pub fn new() -> (s: NameSet)
        ensures
            s@ == Set::<Seq<char>>::empty(),
    {
        NameSet { names: NameMap::new() }
    }

    /// Whether `name` is in the set.
    pub fn contains(&self, name: &String) -> (found: bool)
        ensures
            found == self@.contains(name@),
    {
        self.names.contains_key(name)
    }

    /// Adds `name` to the set, and says whether it was new.
    pub fn insert(&mut self, name: String) -> (added: bool)
        ensures
            added == !old(self)@.contains(name@),
            final(self)@ == old(self)@.insert(name@),
    {
        let added = !self.names.contains_key(&name);
        self.names.insert(name, ());
        added
    }

    /// Whether the set has no names.
    pub fn is_empty(&self) -> (empty: bool)
        ensures
            empty == (self@ == Set::<Seq<char>>::empty()),
    {
        let empty = self.names.is_empty();
        proof {
            if !empty {
                assert(!(self.names@ =~= Map::<Seq<char>, ()>::empty()));
            }
        }
        empty
    }

    /// The names, in the order in which they were inserted.
    pub fn names(&self) -> (names: Vec<String>)
        ensures
            forall|i: int| 0 <= i < names.len() ==> self@.contains(#[trigger] names[i]@),
            forall|name: Seq<char>| #[trigger]
                self@.contains(name) ==> exists|i: int| 0 <= i < names.len() && names[i]@ == name,
            forall|i: int, j: int|
                0 <= i < j < names.len() ==> (#[trigger] names[i])@ != (#[trigger] names[j])@,
    {
        let entries = self.names.entries();
        let mut names: Vec<String> = Vec::new();
        let mut i: usize = 0;
        while i < entries.len()
            invariant
                0 <= i <= entries.len(),
                names.len() == i,
                forall|k: int| 0 <= k < i ==> (#[trigger] names[k])@ == entries[k].0@,
            decreases entries.len() - i,
        {
            names.push(entries[i].0.clone());
            i += 1;
        }
        proof {
            assert forall|name: Seq<char>| #[trigger] self@.contains(name) implies exists|i: int|
                0 <= i < names.len() && names[i]@ == name by {
                let i = choose|i: int| 0 <= i < entries.len() && entries[i].0@ == name;
                assert(names[i]@ == name);
            }
        }
        names
    }
}

} // verus!
