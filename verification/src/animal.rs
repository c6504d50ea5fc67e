//! What a value must offer to hang on a hook.
use vstd::prelude::*;

verus! {

/// Duplication of an occupant.
///
/// The registry hands out copies of what it holds, never the held value
/// itself, so an occupant must be able to produce an owned copy of itself.
pub trait AnimalClone: Sized {
    /// An owned copy, equal to this animal and independent of it.
    fn clone_box(&self) -> (copy: Box<Self>)
        ensures
            *copy == *self,
    ;
}

/// An occupant of a slot: it knows its race and its name, can be copied,
/// and can be printed for diagnostics.
pub trait Animal: AnimalClone + core::fmt::Debug {
    /// The kind of animal.
    fn race(&self) -> &str;

    /// The name this animal goes by.
    fn get_name(&self) -> String;
}

} // verus!
