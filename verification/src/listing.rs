//! Facts about the list of all hooks: what a sequence of sequences holds
//! once it is laid end to end, and how the list grows unit by unit.
use vstd::prelude::*;
use crate::model::{hooks_of_locations, hooks_of_units, LocationView, UnitView};

verus! {

/// Every element of every row is in the flattened sequence: the result is a
/// position at which `rows[r][c]` stands.
pub proof fn lemma_flatten_holds_each<T>(rows: Seq<Seq<T>>, r: int, c: int) -> (k: int)
    requires
        0 <= r < rows.len(),
        0 <= c < rows[r].len(),
    ensures
        0 <= k < rows.flatten().len(),
        rows.flatten()[k] == rows[r][c],
    decreases rows.len(),
{
    if r == 0 {
        c
    } else {
        let rest = rows.drop_first();
        let k = lemma_flatten_holds_each(rest, r - 1, c);
        rows.first().len() + k
    }
}

/// The flattened sequence holds nothing but elements of the rows: the
/// result is a row and a column at which `rows.flatten()[k]` stands.
pub proof fn lemma_flatten_holds_only<T>(rows: Seq<Seq<T>>, k: int) -> (at: (int, int))
    requires
        0 <= k < rows.flatten().len(),
    ensures
        0 <= at.0 < rows.len(),
        0 <= at.1 < rows[at.0].len(),
        rows[at.0][at.1] == rows.flatten()[k],
    decreases rows.len(),
{
    if rows.len() == 0 {
        (0, 0)
    } else if k < rows.first().len() {
        (0, k)
    } else {
        let rest = rows.drop_first();
        let (r, c) = lemma_flatten_holds_only(rest, k - rows.first().len());
        (r + 1, c)
    }
}

/// The slots of a list of units with one more unit at its end are the slots
/// of the list followed by those of the unit.
pub proof fn lemma_hooks_of_units_push<A>(units: Seq<UnitView<A>>, unit: UnitView<A>)
    ensures
        hooks_of_units(units.push(unit)) == hooks_of_units(units) + unit.hooks,
{
    let rows = units.map_values(|unit: UnitView<A>| unit.hooks);
    assert(units.push(unit).map_values(|unit: UnitView<A>| unit.hooks) =~= rows.push(unit.hooks));
    rows.lemma_flatten_push(unit.hooks);
}

/// The slots of a list of locations with one more location at its end are
/// the slots of the list followed by those of the location.
pub proof fn lemma_hooks_of_locations_push<A>(
    locations: Seq<LocationView<A>>,
    location: LocationView<A>,
)
    ensures
        hooks_of_locations(locations.push(location)) == hooks_of_locations(locations)
            + location.hooks(),
{
    let rows = locations.map_values(|location: LocationView<A>| location.hooks());
    assert(locations.push(location).map_values(|location: LocationView<A>| location.hooks())
        =~= rows.push(location.hooks()));
    rows.lemma_flatten_push(location.hooks());
}

} // verus!
