//! What holds of every registry, whatever was done to it: the laws that
//! tie the operations to one another.
use vstd::prelude::*;
use crate::listing::{lemma_flatten_holds_each, lemma_flatten_holds_only};
use crate::lookup::{lemma_first_free_exists, lemma_has_location, lemma_has_unit};
use crate::model::{LocationView, RegistryView, UnitView};

verus! {

/// A hook is free somewhere exactly when the list of all hooks shows an
/// empty one.
pub proof fn lemma_free_hook_iff_listed_empty<A>(registry: RegistryView<A>)
    ensures
        registry.has_free_hook() <==> exists|k: int|
            0 <= k < registry.all_hooks().len() && (#[trigger] registry.all_hooks()[k]) is None,
{
    let all = registry.all_hooks();
    let by_location = registry.locations.map_values(|location: LocationView<A>| location.hooks());
    if registry.has_free_hook() {
        let (l, u, i) = choose|l: int, u: int, i: int| registry.is_free(l, u, i);
        let by_unit = registry.locations[l].units.map_values(|unit: UnitView<A>| unit.hooks);
        let c = lemma_flatten_holds_each(by_unit, u, i);
        let k = lemma_flatten_holds_each(by_location, l, c);
        assert(all[k] is None);
    }
    if exists|k: int| 0 <= k < all.len() && (#[trigger] all[k]) is None {
        let k = choose|k: int| 0 <= k < all.len() && (#[trigger] all[k]) is None;
        let (l, c) = lemma_flatten_holds_only(by_location, k);
        let by_unit = registry.locations[l].units.map_values(|unit: UnitView<A>| unit.hooks);
        let (u, i) = lemma_flatten_holds_only(by_unit, c);
        assert(registry.is_free(l, u, i));
    }
}

/// An animal that went to the first empty hook is found under the names it
/// was added with exactly when that hook lies in the named unit, or the
/// hook of the same index in the named unit held an equal animal already.
/// In particular it is found whenever the first empty hook lies in the
/// named unit.
pub proof fn lemma_added_animal_is_found<A>(
    registry: RegistryView<A>,
    location: Seq<char>,
    unit: Seq<char>,
    l: int,
    u: int,
    i: int,
    animal: Box<A>,
)
    requires
        registry.first_free() == Some((l, u, i)),
        registry.unit_position(location, unit) is Some,
    ensures
        registry.unit_position(location, unit) == Some((l, u)) ==> registry.with_occupant(
            l,
            u,
            i,
            animal,
        ).occupant(location, unit, i) == Some(animal),
        registry.with_occupant(l, u, i, animal).occupant(location, unit, i) == Some(animal) <==> (
        registry.unit_position(location, unit) == Some((l, u)) || registry.occupant(
            location,
            unit,
            i,
        ) == Some(animal)),
{
    lemma_first_free_exists(registry);
    lemma_hanging_keeps_names(registry, l, u, i, animal, location, unit);
    if registry.unit_position(location, unit) != Some((l, u)) {
        lemma_lookup_elsewhere_is_unchanged(registry, l, u, i, animal, location, unit, i);
    }
}

/// Hanging an animal on a hook of one unit leaves every lookup in another
/// unit as it was.
pub proof fn lemma_lookup_elsewhere_is_unchanged<A>(
    registry: RegistryView<A>,
    l: int,
    u: int,
    i: int,
    animal: Box<A>,
    location: Seq<char>,
    unit: Seq<char>,
    index: int,
)
    requires
        registry.is_slot(l, u, i),
        registry.unit_position(location, unit) != Some((l, u)),
    ensures
        registry.with_occupant(l, u, i, animal).occupant(location, unit, index)
            == registry.occupant(location, unit, index),
{
    lemma_hanging_keeps_names(registry, l, u, i, animal, location, unit);
    lemma_found_only_where_it_hangs(registry, location, unit, index);
}

/// Hanging an animal on a hook moves no location and no unit: every pair
/// of names leads where it led before.
pub proof fn lemma_hanging_keeps_names<A>(
    registry: RegistryView<A>,
    l: int,
    u: int,
    i: int,
    animal: Box<A>,
    location: Seq<char>,
    unit: Seq<char>,
)
    requires
        registry.is_slot(l, u, i),
    ensures
        registry.with_occupant(l, u, i, animal).unit_position(location, unit)
            == registry.unit_position(location, unit),
{
    let after = registry.with_occupant(l, u, i, animal);
    assert forall|x: int| 0 <= x < registry.locations.len() implies (
    #[trigger] after.locations[x]).name == registry.locations[x].name by {}
    assert forall|x: int| registry.is_location(location, x) <==> after.is_location(
        location,
        x,
    ) by {
        if registry.is_location(location, x) {
            assert forall|k: int| 0 <= k < x implies (#[trigger] after.locations[k]).name
                != location by {
                assert(registry.locations[k].name != location);
            }
        }
        if after.is_location(location, x) {
            assert forall|k: int| 0 <= k < x implies (#[trigger] registry.locations[k]).name
                != location by {
                assert(after.locations[k].name != location);
            }
        }
    }
    assert(registry.has_location(location) == after.has_location(location));
    assert(registry.location_index(location) == after.location_index(location));
    match registry.location_index(location) {
        Some(x) => {
            assert(registry.is_location(location, x));
            let was = registry.locations[x];
            let now = after.locations[x];
            assert(was.units.len() == now.units.len());
            assert forall|y: int| 0 <= y < was.units.len() implies (#[trigger] now.units[y]).name
                == was.units[y].name by {}
            assert forall|y: int| was.is_unit(unit, y) <==> now.is_unit(unit, y) by {
                if was.is_unit(unit, y) {
                    assert forall|k: int| 0 <= k < y implies (#[trigger] now.units[k]).name
                        != unit by {
                        assert(was.units[k].name != unit);
                    }
                }
                if now.is_unit(unit, y) {
                    assert forall|k: int| 0 <= k < y implies (#[trigger] was.units[k]).name
                        != unit by {
                        assert(now.units[k].name != unit);
                    }
                }
            }
            assert(was.has_unit(unit) == now.has_unit(unit));
            assert(was.unit_index(unit) == now.unit_index(unit));
        },
        None => {},
    }
}

/// Nothing is found off the books: a lookup gives an animal only where the
/// location exists, the unit exists in it, the index lies within the hall
/// and an animal hangs on that hook.
pub proof fn lemma_found_only_where_it_hangs<A>(
    registry: RegistryView<A>,
    location: Seq<char>,
    unit: Seq<char>,
    index: int,
)
    ensures
        !registry.has_location(location) ==> registry.occupant(location, unit, index) is None,
        registry.unit_position(location, unit) is None ==> registry.occupant(
            location,
            unit,
            index,
        ) is None,
        registry.unit_position(location, unit) matches Some((l, u)) ==> {
            &&& registry.is_location(location, l)
            &&& registry.locations[l].is_unit(unit, u)
            &&& (index < 0 || index >= registry.locations[l].units[u].hooks.len()
                ==> registry.occupant(location, unit, index) is None)
            &&& (registry.is_free(l, u, index) ==> registry.occupant(location, unit, index) is None)
            &&& (registry.is_slot(l, u, index) ==> registry.occupant(location, unit, index)
                == registry.locations[l].units[u].hooks[index])
        },
{
    match registry.location_index(location) {
        Some(l) => {
            assert(registry.is_location(location, l));
            match registry.locations[l].unit_index(unit) {
                Some(u) => {
                    assert(registry.locations[l].is_unit(unit, u));
                },
                None => {},
            }
        },
        None => {},
    }
}

/// Hanging an animal on an empty hook disturbs no other animal: whatever a
/// lookup found before, it finds after.
pub proof fn lemma_hanging_leaves_the_others<A>(
    registry: RegistryView<A>,
    l: int,
    u: int,
    i: int,
    animal: Box<A>,
    location: Seq<char>,
    unit: Seq<char>,
    index: int,
)
    requires
        registry.is_free(l, u, i),
    ensures
        registry.occupant(location, unit, index) is Some ==> registry.with_occupant(
            l,
            u,
            i,
            animal,
        ).occupant(location, unit, index) == registry.occupant(location, unit, index),
{
    lemma_hanging_keeps_names(registry, l, u, i, animal, location, unit);
}

/// Hanging an animal changes one hook: the number of locations, the units
/// of each, the capacity of each hall and every other hook stay as they
/// were, and the hook itself holds the animal.
pub proof fn lemma_hanging_changes_one_hook<A>(
    registry: RegistryView<A>,
    l: int,
    u: int,
    i: int,
    animal: Box<A>,
)
    requires
        registry.is_slot(l, u, i),
    ensures
        forall|l2: int, u2: int, i2: int|
            registry.is_slot(l2, u2, i2) <==> #[trigger] registry.with_occupant(
                l,
                u,
                i,
                animal,
            ).is_slot(l2, u2, i2),
        forall|l2: int, u2: int, i2: int|
            registry.is_slot(l2, u2, i2) && (l2, u2, i2) != (l, u, i) ==> (
            #[trigger] registry.with_occupant(l, u, i, animal).locations[l2].units[u2].hooks[i2])
                == registry.locations[l2].units[u2].hooks[i2],
        registry.with_occupant(l, u, i, animal).locations[l].units[u].hooks[i] == Some(animal),
{
}

/// Adding a location keeps names unique.
pub proof fn lemma_with_location_well_formed<A>(registry: RegistryView<A>, name: Seq<char>)
    requires
        registry.well_formed(),
    ensures
        registry.with_location(name).well_formed(),
{
    let after = registry.with_location(name);
    match registry.location_index(name) {
        Some(l) => {
            assert(registry.is_location(name, l));
            assert forall|j: int, k: int| 0 <= j < k < after.locations.len() implies (
            #[trigger] after.locations[j]).name != (#[trigger] after.locations[k]).name by {
                assert(after.locations[j].name == registry.locations[j].name);
                assert(after.locations[k].name == registry.locations[k].name);
            }
        },
        None => {
            assert forall|j: int, k: int| 0 <= j < k < after.locations.len() implies (
            #[trigger] after.locations[j]).name != (#[trigger] after.locations[k]).name by {
                if k == registry.locations.len() {
                    if registry.locations[j].name == name {
                        lemma_has_location(registry, name, j);
                    }
                }
            }
        },
    }
}

/// Adding a unit keeps names unique.
pub proof fn lemma_with_unit_well_formed<A>(
    registry: RegistryView<A>,
    location: Seq<char>,
    name: Seq<char>,
    capacity: nat,
)
    requires
        registry.well_formed(),
    ensures
        registry.with_unit(location, name, capacity).well_formed(),
{
    let after = registry.with_unit(location, name, capacity);
    match registry.location_index(location) {
        Some(l) => {
            assert(registry.is_location(location, l));
            let was = registry.locations[l];
            let now = was.with_unit(name, capacity);
            assert(was.well_formed());
            match was.unit_index(name) {
                Some(u) => {
                    assert(was.is_unit(name, u));
                    assert forall|j: int, k: int| 0 <= j < k < now.units.len() implies (
                    #[trigger] now.units[j]).name != (#[trigger] now.units[k]).name by {
                        assert(now.units[j].name == was.units[j].name);
                        assert(now.units[k].name == was.units[k].name);
                    }
                },
                None => {
                    assert forall|j: int, k: int| 0 <= j < k < now.units.len() implies (
                    #[trigger] now.units[j]).name != (#[trigger] now.units[k]).name by {
                        if k == was.units.len() {
                            if was.units[j].name == name {
                                lemma_has_unit(was, name, j);
                            }
                        }
                    }
                },
            }
            assert(now.well_formed());
            assert forall|j: int, k: int| 0 <= j < k < after.locations.len() implies (
            #[trigger] after.locations[j]).name != (#[trigger] after.locations[k]).name by {
                assert(after.locations[j].name == registry.locations[j].name);
                assert(after.locations[k].name == registry.locations[k].name);
            }
            assert forall|x: int| 0 <= x < after.locations.len() implies (
            #[trigger] after.locations[x]).well_formed() by {
                if x != l {
                    assert(after.locations[x] == registry.locations[x]);
                }
            }
        },
        None => {},
    }
}

/// Hanging an animal on a slot keeps names unique.
pub proof fn lemma_with_occupant_well_formed<A>(
    registry: RegistryView<A>,
    l: int,
    u: int,
    i: int,
    animal: Box<A>,
)
    requires
        registry.well_formed(),
        registry.is_slot(l, u, i),
    ensures
        registry.with_occupant(l, u, i, animal).well_formed(),
{
    let after = registry.with_occupant(l, u, i, animal);
    let was = registry.locations[l];
    let now = after.locations[l];
    assert(was.well_formed());
    assert forall|j: int, k: int| 0 <= j < k < now.units.len() implies (#[trigger] now.units[j]).name
        != (#[trigger] now.units[k]).name by {
        assert(now.units[j].name == was.units[j].name);
        assert(now.units[k].name == was.units[k].name);
    }
    assert forall|j: int, k: int| 0 <= j < k < after.locations.len() implies (
    #[trigger] after.locations[j]).name != (#[trigger] after.locations[k]).name by {
        assert(after.locations[j].name == registry.locations[j].name);
        assert(after.locations[k].name == registry.locations[k].name);
    }
    assert forall|x: int| 0 <= x < after.locations.len() implies (
    #[trigger] after.locations[x]).well_formed() by {
        if x != l {
            assert(after.locations[x] == registry.locations[x]);
        }
    }
}

} // verus!
