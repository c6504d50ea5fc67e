//! The mathematical model of the registry.
//!
//! A registry is a sequence of locations in the order in which their names
//! were first added; a location is a sequence of units in the same sense; a
//! unit is a name and the slots of its hall. Every contract of the crate is
//! stated over these values.
use vstd::prelude::*;

verus! {

/// A slot of a hall: empty, or the animal that hangs there.
pub type Hook<A> = Option<Box<A>>;

/// A unit as the contracts see it: its name and the slots of its hall.
pub struct UnitView<A> {
    pub name: Seq<char>,
    pub hooks: Seq<Hook<A>>,
}

/// A location as the contracts see it: its name and its units, oldest first.
pub struct LocationView<A> {
    pub name: Seq<char>,
    pub units: Seq<UnitView<A>>,
}

/// The whole registry as the contracts see it: its locations, oldest first.
pub struct RegistryView<A> {
    pub locations: Seq<LocationView<A>>,
}

/// Whether the slot `(l, u, i)` comes at or before the slot `(l2, u2, i2)`
/// when locations are walked in order, the units of each in order, and the
/// slots of each unit from index zero upwards.
pub open spec fn not_after(l: int, u: int, i: int, l2: int, u2: int, i2: int) -> bool {
    l < l2 || (l == l2 && (u < u2 || (u == u2 && i <= i2)))
}

/// The slots of `units` laid end to end: those of the first unit, then those
/// of the second, and so on.
pub open spec fn hooks_of_units<A>(units: Seq<UnitView<A>>) -> Seq<Hook<A>> {
    units.map_values(|unit: UnitView<A>| unit.hooks).flatten()
}

/// The slots of `locations` laid end to end: those of the first location,
/// then those of the second, and so on.
pub open spec fn hooks_of_locations<A>(locations: Seq<LocationView<A>>) -> Seq<Hook<A>> {
    locations.map_values(|location: LocationView<A>| location.hooks()).flatten()
}

impl<A> UnitView<A> {
    /// A unit called `name` whose hall has `capacity` empty slots.
    pub open spec fn empty(name: Seq<char>, capacity: nat) -> Self {
        UnitView { name, hooks: Seq::new(capacity, |i: int| None) }
    }
}

impl<A> LocationView<A> {
    /// A location called `name` without units.
    pub open spec fn empty(name: Seq<char>) -> Self {
        LocationView { name, units: Seq::empty() }
    }

    /// Whether `u` is the position of the first unit called `name`.
    pub open spec fn is_unit(self, name: Seq<char>, u: int) -> bool {
        &&& 0 <= u < self.units.len()
        &&& self.units[u].name == name
        &&& forall|k: int| 0 <= k < u ==> (#[trigger] self.units[k]).name != name
    }

    /// Whether a unit called `name` exists here.
    pub open spec fn has_unit(self, name: Seq<char>) -> bool {
        exists|u: int| self.is_unit(name, u)
    }

    /// The position of the unit called `name`, if there is one.
    pub open spec fn unit_index(self, name: Seq<char>) -> Option<int> {
        if self.has_unit(name) {
            Some(choose|u: int| self.is_unit(name, u))
        } else {
            None
        }
    }

    /// No two units of this location share a name.
    pub open spec fn well_formed(self) -> bool {
        forall|j: int, k: int|
            0 <= j < k < self.units.len() ==> (#[trigger] self.units[j]).name != (
            #[trigger] self.units[k]).name
    }

    /// This location after a unit called `name` with `capacity` empty slots
    /// was added: it takes the place of the unit of that name if there is
    /// one, and comes last otherwise.
    pub open spec fn with_unit(self, name: Seq<char>, capacity: nat) -> Self {
        match self.unit_index(name) {
            Some(u) => LocationView {
                name: self.name,
                units: self.units.update(u, UnitView::empty(name, capacity)),
            },
            None => LocationView {
                name: self.name,
                units: self.units.push(UnitView::empty(name, capacity)),
            },
        }
    }

    /// Every slot of this location: the slots of its first unit, then those
    /// of its second, and so on.
    pub open spec fn hooks(self) -> Seq<Hook<A>> {
        hooks_of_units(self.units)
    }
}

impl<A> RegistryView<A> {
    /// The registry without locations.
    pub open spec fn empty() -> Self {
        RegistryView { locations: Seq::empty() }
    }

    /// Whether `l` is the position of the first location called `name`.
    pub open spec fn is_location(self, name: Seq<char>, l: int) -> bool {
        &&& 0 <= l < self.locations.len()
        &&& self.locations[l].name == name
        &&& forall|k: int| 0 <= k < l ==> (#[trigger] self.locations[k]).name != name
    }

    /// Whether a location called `name` exists.
    pub open spec fn has_location(self, name: Seq<char>) -> bool {
        exists|l: int| self.is_location(name, l)
    }

    /// The position of the location called `name`, if there is one.
    pub open spec fn location_index(self, name: Seq<char>) -> Option<int> {
        if self.has_location(name) {
            Some(choose|l: int| self.is_location(name, l))
        } else {
            None
        }
    }

    /// The positions of the location called `location` and, in it, of the
    /// unit called `unit`, if both exist.
    pub open spec fn unit_position(self, location: Seq<char>, unit: Seq<char>) -> Option<
        (int, int),
    > {
        match self.location_index(location) {
            Some(l) => match self.locations[l].unit_index(unit) {
                Some(u) => Some((l, u)),
                None => None,
            },
            None => None,
        }
    }

    /// What hangs at slot `index` of the named unit: `None` where the
    /// location or the unit does not exist, where the index lies outside the
    /// hall, and where the slot is empty.
    pub open spec fn occupant(self, location: Seq<char>, unit: Seq<char>, index: int) -> Hook<A> {
        match self.unit_position(location, unit) {
            Some((l, u)) => {
                let hooks = self.locations[l].units[u].hooks;
                if 0 <= index < hooks.len() {
                    hooks[index]
                } else {
                    None
                }
            },
            None => None,
        }
    }

    /// No two locations share a name, and within a location no two units do.
    pub open spec fn well_formed(self) -> bool {
        &&& forall|j: int, k: int|
            0 <= j < k < self.locations.len() ==> (#[trigger] self.locations[j]).name != (
            #[trigger] self.locations[k]).name
        &&& forall|l: int|
            0 <= l < self.locations.len() ==> (#[trigger] self.locations[l]).well_formed()
    }

    /// Whether `(l, u, i)` is a slot of the registry: slot `i` of unit `u` of
    /// location `l`, all counted from zero.
    pub open spec fn is_slot(self, l: int, u: int, i: int) -> bool {
        &&& 0 <= l < self.locations.len()
        &&& 0 <= u < self.locations[l].units.len()
        &&& 0 <= i < self.locations[l].units[u].hooks.len()
    }

    /// Whether `(l, u, i)` is a slot and nothing hangs there.
    pub open spec fn is_free(self, l: int, u: int, i: int) -> bool {
        self.is_slot(l, u, i) && self.locations[l].units[u].hooks[i] is None
    }

    /// Whether any slot of any hall is empty.
    pub open spec fn has_free_hook(self) -> bool {
        exists|l: int, u: int, i: int| self.is_free(l, u, i)
    }

    /// Whether `(l, u, i)` is the empty slot that the walk over the registry
    /// meets first.
    pub open spec fn is_first_free(self, l: int, u: int, i: int) -> bool {
        &&& self.is_free(l, u, i)
        &&& forall|l2: int, u2: int, i2: int| #[trigger]
            self.is_free(l2, u2, i2) ==> not_after(l, u, i, l2, u2, i2)
    }

    /// The empty slot that the walk over the registry meets first, if any
    /// slot is empty.
    pub open spec fn first_free(self) -> Option<(int, int, int)> {
        if self.has_free_hook() {
            Some(choose|l: int, u: int, i: int| self.is_first_free(l, u, i))
        } else {
            None
        }
    }

    /// The registry after a location called `name` was added: an empty
    /// location that takes the place of the one of that name if there is
    /// one, and comes last otherwise.
    pub open spec fn with_location(self, name: Seq<char>) -> Self {
        match self.location_index(name) {
            Some(l) => RegistryView {
                locations: self.locations.update(l, LocationView::empty(name)),
            },
            None => RegistryView { locations: self.locations.push(LocationView::empty(name)) },
        }
    }

    /// The registry after a unit called `name` with `capacity` empty slots
    /// was added to the location called `location`; unchanged where no such
    /// location exists.
    pub open spec fn with_unit(self, location: Seq<char>, name: Seq<char>, capacity: nat) -> Self {
        match self.location_index(location) {
            Some(l) => RegistryView {
                locations: self.locations.update(l, self.locations[l].with_unit(name, capacity)),
            },
            None => self,
        }
    }

    /// The registry with `animal` at slot `(l, u, i)` and every other slot,
    /// every name and every capacity as before.
    pub open spec fn with_occupant(self, l: int, u: int, i: int, animal: Box<A>) -> Self {
        let location = self.locations[l];
        let unit = location.units[u];
        let filled = UnitView { name: unit.name, hooks: unit.hooks.update(i, Some(animal)) };
        RegistryView {
            locations: self.locations.update(
                l,
                LocationView { name: location.name, units: location.units.update(u, filled) },
            ),
        }
    }

    /// Every slot of the registry in the order of the walk: the slots of the
    /// first location, then those of the second, and so on.
    pub open spec fn all_hooks(self) -> Seq<Hook<A>> {
        hooks_of_locations(self.locations)
    }
}

} // verus!
