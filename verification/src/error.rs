//! The ways an operation on the registry can fail.
use vstd::prelude::*;

verus! {

/// Why the registry turned an operation down. Nothing is changed by an
/// operation that fails.
#[derive(Clone, Copy, Debug, PartialEq, Eq)]
pub enum Error {
    /// The named location or unit does not exist, the slot index lies
    /// outside the hall, or the slot is empty.
    NotFound,
    /// Every slot of every hall is taken.
    NoCapacity,
}

} // verus!
