//! The registry itself: locations, their units, and the animals on the
//! hooks of each unit's hall.
use vstd::prelude::*;
use crate::animal::Animal;
use crate::error::Error;
use crate::hall::Hall;
use crate::laws::{
    lemma_with_location_well_formed, lemma_with_occupant_well_formed, lemma_with_unit_well_formed,
};
use crate::listing::{lemma_hooks_of_locations_push, lemma_hooks_of_units_push};
use crate::lookup::{
    lemma_first_free_exists, lemma_first_free_is_unique, lemma_location_index, lemma_unit_index,
    lemma_unit_position,
};
use crate::model::{
    hooks_of_locations, hooks_of_units, not_after, Hook, LocationView, RegistryView, UnitView,
};
use crate::names::same_name;

verus! {

/// The units of one location, each under its name, oldest first.
pub type Unit<'a, A> = Vec<(&'a str, Hall<A>)>;

/// The locations of a registry, each under its name, oldest first.
pub type Locations<'a, A> = Vec<(&'a str, Unit<'a, A>)>;

/// What the contracts see of a list of units.
pub open spec fn units_view<'a, A>(units: Unit<'a, A>) -> Seq<UnitView<A>> {
    Seq::new(units@.len(), |u: int| UnitView { name: units@[u].0@, hooks: units@[u].1@ })
}

/// What the contracts see of a list of locations.
pub open spec fn locations_view<'a, A>(locations: Locations<'a, A>) -> RegistryView<A> {
    RegistryView {
        locations: Seq::new(
            locations@.len(),
            |l: int| LocationView { name: locations@[l].0@, units: units_view(locations@[l].1) },
        ),
    }
}

/// A registry of animals: named locations, in each of them named units, and
/// for each unit a hall of hooks. No two locations share a name, and no two
/// units of one location do.
pub struct Slaughterhouse<'a, A>(Locations<'a, A>);

impl<'a, A> View for Slaughterhouse<'a, A> {
    type V = RegistryView<A>;

    closed spec fn view(&self) -> RegistryView<A> {
        locations_view(self.0)
    }
}

impl<'a, A> Slaughterhouse<'a, A> {
    #[verifier::type_invariant]
    spec fn names_are_unique(&self) -> bool {
        locations_view(self.0).well_formed()
    }
}

/// The position of the first unit called `name`.
fn find_unit<'a, A>(units: &Unit<'a, A>, name: &str) -> (found: Option<usize>)
    ensures
        match found {
            Some(u) => {
                &&& u < units@.len()
                &&& units@[u as int].0@ == name@
                &&& forall|k: int| 0 <= k < u ==> units@[k].0@ != name@
            },
            None => forall|k: int| 0 <= k < units@.len() ==> units@[k].0@ != name@,
        },
{
    let mut u: usize = 0;
    while u < units.len()
        invariant
            u <= units@.len(),
            forall|k: int| 0 <= k < u ==> units@[k].0@ != name@,
        decreases units@.len() - u,
    {
        if same_name(units[u].0, name) {
            return Some(u);
        }
        u += 1;
    }
    None
}

/// The position of the first location called `name`.
fn find_location<'a, A>(locations: &Locations<'a, A>, name: &str) -> (found: Option<usize>)
    ensures
        match found {
            Some(l) => locations_view(*locations).is_location(name@, l as int),
            None => forall|k: int| 0 <= k < locations@.len() ==> locations@[k].0@ != name@,
        },
{
    let mut l: usize = 0;
    while l < locations.len()
        invariant
            l <= locations@.len(),
            forall|k: int| 0 <= k < l ==> locations@[k].0@ != name@,
        decreases locations@.len() - l,
    {
        if same_name(locations[l].0, name) {
            return Some(l);
        }
        l += 1;
    }
    None
}

/// A registry without locations.
pub fn new<'a, A: Animal>() -> (registry: Slaughterhouse<'a, A>)
    ensures
        registry@ == RegistryView::<A>::empty(),
        registry@.well_formed(),
{
    Slaughterhouse::new()
}

impl<'a, A: Animal> Slaughterhouse<'a, A> {
    /// A registry without locations.
    pub fn new() -> (registry: Self)
        ensures
            registry@ == RegistryView::<A>::empty(),
            registry@.well_formed(),
    {
        let registry = Slaughterhouse(Vec::new());
        assert(locations_view(registry.0).locations =~= Seq::empty());
        registry
    }

    /// Adds an empty location called `name`. Where a location of that name
    /// exists already, the new one takes its place and its units are gone.
    pub fn add_location(&mut self, name: &'a str)
        ensures
            final(self)@ == old(self)@.with_location(name@),
            final(self)@.well_formed(),
    {
        proof {
            use_type_invariant(&*self);
        }
        let ghost before = self@;
        let found = find_location(&self.0, name);
        let mut locations: Locations<'a, A> = Vec::new();
        std::mem::swap(&mut locations, &mut self.0);
        match found {
            Some(l) => {
                proof {
                    lemma_location_index(before, name@, l as int);
                }
                locations[l] = (name, Vec::new());
                assert(units_view(locations@[l as int].1) =~= Seq::empty());
            },
            None => {
                locations.push((name, Vec::new()));
                assert(units_view(locations@[locations@.len() - 1].1) =~= Seq::empty());
            },
        }
        proof {
            let after = locations_view(locations);
            assert(after.locations =~= before.with_location(name@).locations);
            lemma_with_location_well_formed(before, name@);
        }
        self.0 = locations;
    }

    /// Adds a unit called `name`, with a hall of `capacity` empty hooks, to
    /// the location called `location`. Where that location has a unit of
    /// that name already, the new one takes its place and its animals are
    /// gone. Fails with `NotFound`, and changes nothing, where no location
    /// is called `location`.
    pub fn add_unit(&mut self, location: &'a str, name: &'a str, capacity: usize) -> (added: Result<
        (),
        Error,
    >)
        ensures
            final(self)@ == old(self)@.with_unit(location@, name@, capacity as nat),
            final(self)@.well_formed(),
            old(self)@.has_location(location@) ==> added == Ok::<(), Error>(()),
            !old(self)@.has_location(location@) ==> added == Err::<(), Error>(Error::NotFound),
    {
        proof {
            use_type_invariant(&*self);
        }
        let ghost before = self@;
        let l = match find_location(&self.0, location) {
            Some(l) => l,
            None => {
                return Err(Error::NotFound);
            },
        };
        let found = find_unit(&self.0[l].1, name);
        let hall = Hall::new(capacity);
        let mut locations: Locations<'a, A> = Vec::new();
        std::mem::swap(&mut locations, &mut self.0);
        proof {
            lemma_location_index(before, location@, l as int);
        }
        match found {
            Some(u) => {
                proof {
                    lemma_unit_index(before.locations[l as int], name@, u as int);
                }
                locations[l].1[u] = (name, hall);
            },
            None => {
                locations[l].1.push((name, hall));
            },
        }
        proof {
            let after = locations_view(locations);
            let wanted = before.with_unit(location@, name@, capacity as nat);
            assert(after.locations[l as int].units =~= wanted.locations[l as int].units);
            assert(after.locations =~= wanted.locations);
            lemma_with_unit_well_formed(before, location@, name@, capacity as nat);
        }
        self.0 = locations;
        Ok(())
    }

    /// The empty hook that the next animal goes to: the first one met when
    /// the locations are walked in order, the units of each in order, and
    /// the hooks of each unit from index zero upwards. The result names the
    /// position of the location, the position of the unit in it, and the
    /// index of the hook in the unit's hall.
    pub fn next_free_hook_index(&self) -> (found: Result<(usize, usize, usize), Error>)
        ensures
            match found {
                Ok((l, u, i)) => self@.first_free() == Some((l as int, u as int, i as int)),
                Err(e) => e == Error::NoCapacity && self@.first_free() is None,
            },
    {
        let ghost view = self@;
        let mut l: usize = 0;
        while l < self.0.len()
            invariant
                view == locations_view(self.0),
                l <= self.0@.len(),
                forall|l2: int, u2: int, i2: int| #[trigger] view.is_free(l2, u2, i2) ==> l <= l2,
            decreases self.0@.len() - l,
        {
            let units = &self.0[l].1;
            let mut u: usize = 0;
            while u < units.len()
                invariant
                    view == locations_view(self.0),
                    l < self.0@.len(),
                    *units == self.0@[l as int].1,
                    u <= units@.len(),
                    forall|l2: int, u2: int, i2: int| #[trigger]
                        view.is_free(l2, u2, i2) ==> not_after(l as int, u as int, 0, l2, u2, i2),
                decreases units@.len() - u,
            {
                let hooks = units[u].1.hooks();
                let mut i: usize = 0;
                while i < hooks.len()
                    invariant
                        view == locations_view(self.0),
                        l < self.0@.len(),
                        *units == self.0@[l as int].1,
                        u < units@.len(),
                        hooks@ == units@[u as int].1@,
                        i <= hooks@.len(),
                        forall|l2: int, u2: int, i2: int| #[trigger]
                            view.is_free(l2, u2, i2) ==> not_after(
                                l as int,
                                u as int,
                                i as int,
                                l2,
                                u2,
                                i2,
                            ),
                    decreases hooks@.len() - i,
                {
                    if hooks[i].is_none() {
                        proof {
                            assert(view.is_free(l as int, u as int, i as int));
                            assert(view.is_first_free(l as int, u as int, i as int));
                            lemma_first_free_is_unique(view, l as int, u as int, i as int);
                        }
                        return Ok((l, u, i));
                    }
                    i += 1;
                }
                u += 1;
            }
            l += 1;
        }
        Err(Error::NoCapacity)
    }

    /// Whether any hook of any hall is empty.
    pub fn has_free_hook(&self) -> (free: bool)
        ensures
            free == self@.has_free_hook(),
    {
        self.next_free_hook_index().is_ok()
    }

    /// The positions of the location called `location` and, in it, of the
    /// unit called `unit`.
    fn find_hall(&self, location: &str, unit: &str) -> (found: Option<(usize, usize)>)
        ensures
            match found {
                Some((l, u)) => self@.unit_position(location@, unit@) == Some((l as int, u as int)),
                None => self@.unit_position(location@, unit@) is None,
            },
    {
        let ghost view = self@;
        match find_location(&self.0, location) {
            Some(l) => {
                proof {
                    lemma_location_index(view, location@, l as int);
                }
                match find_unit(&self.0[l].1, unit) {
                    Some(u) => {
                        proof {
                            lemma_unit_position(view, location@, unit@, l as int, u as int);
                        }
                        Some((l, u))
                    },
                    None => None,
                }
            },
            None => None,
        }
    }

    /// Hangs `animal` on the first empty hook of the registry, the one that
    /// `next_free_hook_index` names, and returns the index of that hook in
    /// its hall. The named unit has to exist; it does not decide where the
    /// animal goes.
    ///
    /// Fails with `NoCapacity` where no hook is empty, and otherwise with
    /// `NotFound` where no location is called `location` or it has no unit
    /// called `unit`. A call that fails changes nothing.
    pub fn add_animal(&mut self, location: &'a str, unit: &'a str, animal: Box<A>) -> (added:
        Result<usize, Error>)
        ensures
            match old(self)@.first_free() {
                None => {
                    &&& added == Err::<usize, Error>(Error::NoCapacity)
                    &&& final(self)@ == old(self)@
                },
                Some((l, u, i)) => if old(self)@.unit_position(location@, unit@) is None {
                    &&& added == Err::<usize, Error>(Error::NotFound)
                    &&& final(self)@ == old(self)@
                } else {
                    &&& added matches Ok(index) && index == i
                    &&& final(self)@ == old(self)@.with_occupant(l, u, i, animal)
                },
            },
            final(self)@.well_formed(),
    {
        proof {
            use_type_invariant(&*self);
        }
        let ghost before = self@;
        let (l, u, i) = match self.next_free_hook_index() {
            Ok(slot) => slot,
            Err(e) => {
                return Err(e);
            },
        };
        if self.find_hall(location, unit).is_none() {
            return Err(Error::NotFound);
        }
        proof {
            lemma_first_free_exists(before);
        }
        let mut locations: Locations<'a, A> = Vec::new();
        std::mem::swap(&mut locations, &mut self.0);
        locations[l].1[u].1.hang(i, animal);
        proof {
            let after = locations_view(locations);
            let wanted = before.with_occupant(l as int, u as int, i as int, animal);
            assert(after.locations[l as int].units =~= wanted.locations[l as int].units);
            assert(after.locations =~= wanted.locations);
            lemma_with_occupant_well_formed(before, l as int, u as int, i as int, animal);
        }
        self.0 = locations;
        Ok(i)
    }

    /// A copy of the animal on hook `index` of the unit called `unit_name`
    /// in the location called `location`. Fails with `NotFound` where the
    /// location or the unit does not exist, where the hall has no hook of
    /// that index, and where the hook is empty.
    pub fn get_animal(&self, location: &'a str, unit_name: &'a str, index: usize) -> (animal:
        Result<Box<A>, Error>)
        ensures
            animal == match self@.occupant(location@, unit_name@, index as int) {
                Some(held) => Ok::<Box<A>, Error>(held),
                None => Err::<Box<A>, Error>(Error::NotFound),
            },
    {
        let (l, u) = match self.find_hall(location, unit_name) {
            Some(position) => position,
            None => {
                return Err(Error::NotFound);
            },
        };
        let hooks = self.0[l].1[u].1.hooks();
        if index >= hooks.len() {
            return Err(Error::NotFound);
        }
        match &hooks[index] {
            Some(held) => Ok(held.clone_box()),
            None => Err(Error::NotFound),
        }
    }

    /// Every hook of the registry, empty or not, in the order in which
    /// `next_free_hook_index` walks them.
    pub fn iter_hooks(&self) -> (hooks: Vec<&Hook<A>>)
        ensures
            hooks@.map_values(|hook: &Hook<A>| *hook) == self@.all_hooks(),
    {
        let ghost view = self@;
        let mut all: Vec<&Hook<A>> = Vec::new();
        let mut l: usize = 0;
        assert(view.locations.take(0) =~= Seq::empty());
        assert(all@.map_values(|hook: &Hook<A>| *hook) =~= hooks_of_locations(
            view.locations.take(0),
        ));
        while l < self.0.len()
            invariant
                view == locations_view(self.0),
                l <= self.0@.len(),
                all@.map_values(|hook: &Hook<A>| *hook) == hooks_of_locations(
                    view.locations.take(l as int),
                ),
            decreases self.0@.len() - l,
        {
            let units = &self.0[l].1;
            let ghost location = view.locations[l as int];
            let ghost done = all@.map_values(|hook: &Hook<A>| *hook);
            let mut u: usize = 0;
            assert(location.units.take(0) =~= Seq::empty());
            assert(hooks_of_units(location.units.take(0)) =~= Seq::empty());
            assert(all@.map_values(|hook: &Hook<A>| *hook) =~= done + hooks_of_units(
                location.units.take(0),
            ));
            while u < units.len()
                invariant
                    location.units == units_view(*units),
                    u <= units@.len(),
                    all@.map_values(|hook: &Hook<A>| *hook) == done + hooks_of_units(
                        location.units.take(u as int),
                    ),
                decreases units@.len() - u,
            {
                let hooks = units[u].1.hooks();
                let ghost before = all@.map_values(|hook: &Hook<A>| *hook);
                let mut i: usize = 0;
                assert(all@.map_values(|hook: &Hook<A>| *hook) =~= before + hooks@.take(0));
                while i < hooks.len()
                    invariant
                        i <= hooks@.len(),
                        all@.map_values(|hook: &Hook<A>| *hook) == before + hooks@.take(i as int),
                    decreases hooks@.len() - i,
                {
                    let ghost listed = all@.map_values(|hook: &Hook<A>| *hook);
                    all.push(&hooks[i]);
                    proof {
                        let now = all@.map_values(|hook: &Hook<A>| *hook);
                        assert(now =~= listed.push(hooks@[i as int]));
                        assert(hooks@.take(i + 1) =~= hooks@.take(i as int).push(hooks@[i as int]));
                        assert(now =~= before + hooks@.take(i + 1));
                    }
                    i += 1;
                }
                proof {
                    assert(hooks@.take(hooks@.len() as int) =~= hooks@);
                    lemma_hooks_of_units_push(
                        location.units.take(u as int),
                        location.units[u as int],
                    );
                    assert(location.units.take(u + 1) =~= location.units.take(u as int).push(
                        location.units[u as int],
                    ));
                    assert(done + hooks_of_units(location.units.take(u as int)) + hooks@ =~= done
                        + (hooks_of_units(location.units.take(u as int)) + hooks@));
                }
                u += 1;
            }
            proof {
                assert(location.units.take(location.units.len() as int) =~= location.units);
                lemma_hooks_of_locations_push(view.locations.take(l as int), location);
                assert(view.locations.take(l + 1) =~= view.locations.take(l as int).push(location));
            }
            l += 1;
        }
        proof {
            assert(view.locations.take(view.locations.len() as int) =~= view.locations);
        }
        all
    }
}

impl<'a, A> core::ops::Deref for Slaughterhouse<'a, A> {
    type Target = Locations<'a, A>;

    /// The locations with their units and halls, to read.
    fn deref(&self) -> (locations: &Locations<'a, A>)
        ensures
            locations_view(*locations) == self@,
    {
        &self.0
    }
}

impl<'a, A: Animal> Default for Slaughterhouse<'a, A> {
    /// A registry without locations.
    fn default() -> (registry: Self)
        ensures
            registry@ == RegistryView::<A>::empty(),
            registry@.well_formed(),
    {
        Self::new()
    }
}

} // verus!
