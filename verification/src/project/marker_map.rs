//! Markers by name.
use crate::project::project;
use crate::project::project::MarkerSettings;
use crate::utils::name_map::NameMap;
use vstd::prelude::*;

verus! {

/// Markers by name; no name occurs twice.
#[derive(Debug)]
pub struct MarkerMap {
    inner: NameMap<MarkerSettings>,
}

impl View for MarkerMap {
    type V = Map<Seq<char>, project::MarkerSettingsModel>;

    closed spec fn view(&self) -> Map<Seq<char>, project::MarkerSettingsModel> {
        self.inner@.map_values(|s: MarkerSettings| s@)
    }
}

impl MarkerMap {
    /// The names in the order in which the map is walked.
    pub closed spec fn names(&self) -> Seq<Seq<char>> {
        self.inner.names()
    }

    pub fn new() -> (r: Self)
        ensures
            r@ == Map::<Seq<char>, project::MarkerSettingsModel>::empty(),
            r.names() == Seq::<Seq<char>>::empty(),
    {
        let r = MarkerMap { inner: NameMap::new() };
        assert(r@ =~= Map::empty());
        r
    }

    /// How many markers there are. The walk visits every name exactly once.
    pub fn len(&self) -> (n: usize)
        ensures
            n == self.names().len(),
            forall|name: Seq<char>| #[trigger]
                self@.dom().contains(name) <==> self.names().contains(name),
            self.names().no_duplicates(),
    {
        let n: usize = self.inner.len();
        assert(self@.dom() =~= self.inner@.dom());
        n
    }

    /// The name in one place of the walk.
    pub fn name_at(&self, i: usize) -> (name: &String)
        requires
            i < self.names().len(),
        ensures
            name@ == self.names()[i as int],
    {
        self.inner.name_at(i)
    }

    /// The settings in one place of the walk.
    pub fn settings_at(&self, i: usize) -> (settings: &MarkerSettings)
        requires
            i < self.names().len(),
        ensures
            self@.dom().contains(self.names()[i as int]),
            settings@ == self@[self.names()[i as int]],
    {
        self.inner.value_at(i)
    }

    /// The settings of a marker.
    pub fn get(&self, name: &str) -> (r: Option<&MarkerSettings>)
        ensures
            match r {
                Some(settings) => self@.dom().contains(name@) && settings@ == self@[name@],
                None => !self@.dom().contains(name@),
            },
    {
        self.inner.get(name)
    }

    /// Adds a marker, or replaces the one of that name.
    pub fn insert(&mut self, name: String, settings: MarkerSettings)
        ensures
            final(self)@ == old(self)@.insert(name@, settings@),
    {
        let ghost before = self.inner@;
        let ghost key = name@;
        self.inner.insert(name, settings);
        proof {
            assert(self.inner@ == before.insert(key, settings));
            assert(self@ =~= old(self)@.insert(key, settings@));
        }
    }
}

impl Clone for MarkerMap {
    fn clone(&self) -> (r: Self)
        ensures
            r@ == self@,
    {
        let mut out = MarkerMap::new();
        let total: usize = self.len();
        let mut i: usize = 0;
        while i < total
            invariant
                i <= total == self.names().len(),
                self.names().no_duplicates(),
                forall|k: int|
                    0 <= k < i ==> out@.dom().contains(#[trigger] self.names()[k])
                        && out@[self.names()[k]] == self@[self.names()[k]],
                forall|name: Seq<char>| #[trigger]
                    out@.dom().contains(name) ==> exists|k: int|
                        0 <= k < i && #[trigger] self.names()[k] == name,
            decreases total - i,
        {
            let ghost before = out@;
            out.insert(self.name_at(i).clone(), self.settings_at(i).clone());
            proof {
                assert forall|name: Seq<char>| #[trigger] out@.dom().contains(name) implies exists|
                    k: int,
                | 0 <= k < i + 1 && #[trigger] self.names()[k] == name by {
                    if before.dom().contains(name) {
                        let k = choose|k: int| 0 <= k < i && #[trigger] self.names()[k] == name;
                        assert(self.names()[k] == name);
                    } else {
                        assert(self.names()[i as int] == name);
                    }
                }
            }
            i = i + 1;
        }
        proof {
            assert forall|name: Seq<char>| #[trigger] self@.dom().contains(name) implies
                out@.dom().contains(name) && out@[name] == self@[name] by {
                assert(self.names().contains(name));
            }
            assert(out@.dom() =~= self@.dom());
            assert(out@ =~= self@);
        }
        out
    }
}

} // verus!
