//! Values by name.
use crate::utils::text;
use vstd::prelude::*;

verus! {

/// A value under its name.
#[derive(Debug)]
struct NameEntry<V> {
    name: String,
    value: V,
}

/// Values by name; no name occurs twice.
#[derive(Debug)]
pub struct NameMap<V> {
    entries: Vec<NameEntry<V>>,
}

spec fn names_differ<V>(entries: Seq<NameEntry<V>>) -> bool {
    forall|i: int, j: int|
        #![trigger entries[i], entries[j]]
        0 <= i < j < entries.len() ==> entries[i].name@ != entries[j].name@
}

spec fn at_name<V>(entries: Seq<NameEntry<V>>, name: Seq<char>, i: int) -> bool {
    0 <= i < entries.len() && entries[i].name@ == name
}

spec fn entries_map<V>(entries: Seq<NameEntry<V>>) -> Map<Seq<char>, V> {
    Map::new(
        |name: Seq<char>| exists|i: int| at_name(entries, name, i),
        |name: Seq<char>| entries[choose|i: int| at_name(entries, name, i)].value,
    )
}

impl<V> View for NameMap<V> {
    type V = Map<Seq<char>, V>;

    closed spec fn view(&self) -> Map<Seq<char>, V> {
        entries_map(self.entries@)
    }
}

impl<V> NameMap<V> {
    #[verifier::type_invariant]
    spec fn distinct(self) -> bool {
        names_differ(self.entries@)
    }

    /// The names in the order in which the map is walked.
    pub closed spec fn names(&self) -> Seq<Seq<char>> {
        self.entries@.map_values(|e: NameEntry<V>| e.name@)
    }

    pub fn new() -> (r: Self)
        ensures
            r@ == Map::<Seq<char>, V>::empty(),
            r.names() == Seq::<Seq<char>>::empty(),
    {
        let r = NameMap { entries: Vec::new() };
        assert(r@ =~= Map::empty());
        assert(r.names() =~= Seq::empty());
        r
    }

    /// The name in one place of the walk.
    pub fn name_at(&self, i: usize) -> (name: &String)
        requires
            i < self.names().len(),
        ensures
            name@ == self.names()[i as int],
    {
        &self.entries[i].name
    }

    /// The value in one place of the walk.
    pub fn value_at(&self, i: usize) -> (value: &V)
        requires
            i < self.names().len(),
        ensures
            self@.dom().contains(self.names()[i as int]),
            *value == self@[self.names()[i as int]],
    {
        proof {
            use_type_invariant(self);
            assert(at_name(self.entries@, self.names()[i as int], i as int));
        }
        &self.entries[i].value
    }

    /// How many values there are. The walk visits every name exactly once.
    pub fn len(&self) -> (n: usize)
        ensures
            n == self.names().len(),
            forall|name: Seq<char>| #[trigger]
                self@.dom().contains(name) <==> self.names().contains(name),
            self.names().no_duplicates(),
    {
        proof {
            use_type_invariant(self);
            assert forall|name: Seq<char>| #[trigger] self@.dom().contains(name) implies
                self.names().contains(name) by {
                let i = choose|i: int| at_name(self.entries@, name, i);
                assert(self.names()[i] == name);
            }
            assert forall|name: Seq<char>| self.names().contains(name) implies #[trigger]
                self@.dom().contains(name) by {
                let i = choose|i: int| 0 <= i < self.names().len() && self.names()[i] == name;
                assert(at_name(self.entries@, name, i));
            }
        }
        self.entries.len()
    }

    fn position(&self, name: &str) -> (r: Option<usize>)
        ensures
            match r {
                Some(i) => at_name(self.entries@, name@, i as int) && self@.dom().contains(name@)
                    && self@[name@] == self.entries@[i as int].value,
                None => !self@.dom().contains(name@) && forall|i: int|
                    !at_name(self.entries@, name@, i),
            },
    {
        proof {
            use_type_invariant(self);
        }
        let mut i: usize = 0;
        while i < self.entries.len()
            invariant
                i <= self.entries.len(),
                names_differ(self.entries@),
                forall|k: int| 0 <= k < i ==> !at_name(self.entries@, name@, k),
            decreases self.entries.len() - i,
        {
            if text::same_text(self.entries[i].name.as_str(), name) {
                assert(at_name(self.entries@, name@, i as int));
                return Some(i);
            }
            i = i + 1;
        }
        None
    }

    /// The value under a name.
    pub fn get(&self, name: &str) -> (r: Option<&V>)
        ensures
            match r {
                Some(value) => self@.dom().contains(name@) && *value == self@[name@],
                None => !self@.dom().contains(name@),
            },
    {
        match self.position(name) {
            Some(i) => Some(&self.entries[i].value),
            None => None,
        }
    }

    /// Adds a value, or replaces the one of that name.
    pub fn insert(&mut self, name: String, value: V)
        ensures
            final(self)@ == old(self)@.insert(name@, value),
    {
        let found = self.position(name.as_str());
        proof {
            use_type_invariant(&*self);
        }
        let mut entries: Vec<NameEntry<V>> = Vec::new();
        std::mem::swap(&mut entries, &mut self.entries);
        let ghost before = entries@;
        let ghost key = name@;
        let entry = NameEntry { name, value };
        match found {
            Some(i) => {
                entries.set(i, entry);
                proof {
                    assert(at_name(entries@, key, i as int));
                    assert forall|k: Seq<char>| entries_map(entries@).dom().contains(k)
                        == entries_map(before).insert(key, value).dom().contains(k) by {
                        if exists|j: int| at_name(before, k, j) {
                            let j = choose|j: int| at_name(before, k, j);
                            assert(at_name(entries@, k, j));
                        }
                        if exists|j: int| at_name(entries@, k, j) {
                            let j = choose|j: int| at_name(entries@, k, j);
                            assert(at_name(before, k, j));
                        }
                    }
                    assert forall|k: Seq<char>| entries_map(entries@).dom().contains(k) implies
                        entries_map(entries@)[k] == entries_map(before).insert(key, value)[k] by {
                        let j = choose|j: int| at_name(entries@, k, j);
                        if k != key {
                            assert(at_name(before, k, j));
                        }
                    }
                }
            },
            None => {
                entries.push(entry);
                proof {
                    let last = before.len() as int;
                    assert(at_name(entries@, key, last));
                    assert forall|i: int, j: int|
                        #![trigger entries@[i], entries@[j]]
                        0 <= i < j < entries@.len() implies entries@[i].name@
                        != entries@[j].name@ by {
                        assert(!at_name(before, key, i));
                    }
                    assert forall|k: Seq<char>| entries_map(entries@).dom().contains(k)
                        == entries_map(before).insert(key, value).dom().contains(k) by {
                        if exists|j: int| at_name(before, k, j) {
                            let j = choose|j: int| at_name(before, k, j);
                            assert(at_name(entries@, k, j));
                        }
                        if exists|j: int| at_name(entries@, k, j) {
                            let j = choose|j: int| at_name(entries@, k, j);
                            assert(j == last || at_name(before, k, j));
                        }
                    }
                    assert forall|k: Seq<char>| entries_map(entries@).dom().contains(k) implies
                        entries_map(entries@)[k] == entries_map(before).insert(key, value)[k] by {
                        let j = choose|j: int| at_name(entries@, k, j);
                        if k != key {
                            assert(at_name(before, k, j));
                        }
                    }
                }
            },
        }
        assert(entries_map(entries@) =~= entries_map(before).insert(key, value));
        self.entries = entries;
    }
}

} // verus!
