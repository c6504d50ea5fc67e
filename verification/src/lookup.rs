//! Facts about finding things in a registry: the position of a name, and
//! the first empty hook.
use vstd::prelude::*;
use crate::model::{not_after, LocationView, RegistryView};

verus! {

/// A position that is the first of its name is the one that
/// `location_index` names.
pub proof fn lemma_location_index<A>(registry: RegistryView<A>, name: Seq<char>, l: int)
    requires
        registry.is_location(name, l),
    ensures
        registry.location_index(name) == Some(l),
{
    let c = choose|c: int| registry.is_location(name, c);
    assert(registry.is_location(name, c));
    if c < l {
        assert(registry.locations[c].name != name);
    }
    if l < c {
        assert(registry.locations[l].name != name);
    }
}

/// A location of the name at some position means that the name is known.
pub proof fn lemma_has_location<A>(registry: RegistryView<A>, name: Seq<char>, l: int)
    requires
        0 <= l < registry.locations.len(),
        registry.locations[l].name == name,
    ensures
        registry.has_location(name),
    decreases l,
{
    if exists|k: int| 0 <= k < l && (#[trigger] registry.locations[k]).name == name {
        let k = choose|k: int| 0 <= k < l && (#[trigger] registry.locations[k]).name == name;
        lemma_has_location(registry, name, k);
    } else {
        assert(registry.is_location(name, l));
    }
}

/// A position that is the first of its name is the one that `unit_index`
/// names.
pub proof fn lemma_unit_index<A>(location: LocationView<A>, name: Seq<char>, u: int)
    requires
        location.is_unit(name, u),
    ensures
        location.unit_index(name) == Some(u),
{
    let c = choose|c: int| location.is_unit(name, c);
    assert(location.is_unit(name, c));
    if c < u {
        assert(location.units[c].name != name);
    }
    if u < c {
        assert(location.units[u].name != name);
    }
}

/// A unit of the name at some position means that the name is known.
pub proof fn lemma_has_unit<A>(location: LocationView<A>, name: Seq<char>, u: int)
    requires
        0 <= u < location.units.len(),
        location.units[u].name == name,
    ensures
        location.has_unit(name),
    decreases u,
{
    if exists|k: int| 0 <= k < u && (#[trigger] location.units[k]).name == name {
        let k = choose|k: int| 0 <= k < u && (#[trigger] location.units[k]).name == name;
        lemma_has_unit(location, name, k);
    } else {
        assert(location.is_unit(name, u));
    }
}

/// The walk meets one empty slot first: a slot that is first is the one
/// that `first_free` names.
pub proof fn lemma_first_free_is_unique<A>(registry: RegistryView<A>, l: int, u: int, i: int)
    requires
        registry.is_first_free(l, u, i),
    ensures
        registry.first_free() == Some((l, u, i)),
{
    assert(registry.is_free(l, u, i));
    let (l2, u2, i2) = choose|l2: int, u2: int, i2: int| registry.is_first_free(l2, u2, i2);
    assert(registry.is_first_free(l2, u2, i2));
    assert(registry.is_free(l2, u2, i2));
}

/// Where a slot is empty, `first_free` names an empty slot that no empty
/// slot comes before.
pub proof fn lemma_first_free_exists<A>(registry: RegistryView<A>)
    requires
        registry.has_free_hook(),
    ensures
        registry.first_free() matches Some((l, u, i)) && registry.is_first_free(l, u, i),
{
    let (l, u, i) = choose|l: int, u: int, i: int| registry.is_free(l, u, i);
    lemma_least_free(registry, l, u, i);
}

/// Below any empty slot the walk meets an empty slot first.
proof fn lemma_least_free<A>(registry: RegistryView<A>, l: int, u: int, i: int)
    requires
        registry.is_free(l, u, i),
    ensures
        exists|l2: int, u2: int, i2: int| registry.is_first_free(l2, u2, i2),
    decreases l, u, i,
{
    if exists|l2: int, u2: int, i2: int| #[trigger]
        registry.is_free(l2, u2, i2) && !not_after(l, u, i, l2, u2, i2) {
        let (l2, u2, i2) = choose|l2: int, u2: int, i2: int| #[trigger]
            registry.is_free(l2, u2, i2) && !not_after(l, u, i, l2, u2, i2);
        lemma_least_free(registry, l2, u2, i2);
    } else {
        assert(registry.is_first_free(l, u, i));
    }
}

/// Where `l` is the position of the location called `location` and `u` that
/// of its unit called `unit`, the two names lead to `(l, u)`.
pub proof fn lemma_unit_position<A>(
    registry: RegistryView<A>,
    location: Seq<char>,
    unit: Seq<char>,
    l: int,
    u: int,
)
    requires
        registry.is_location(location, l),
        registry.locations[l].is_unit(unit, u),
    ensures
        registry.unit_position(location, unit) == Some((l, u)),
{
    lemma_location_index(registry, location, l);
    lemma_unit_index(registry.locations[l], unit, u);
}

} // verus!
