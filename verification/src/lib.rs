//! A registry of animals on hooks: named locations hold named units, and
//! each unit is a hall with a fixed number of hooks, each empty or holding
//! one animal.
//!
//! [`Slaughterhouse`] is the registry; [`model`] holds the mathematical
//! values its contracts speak of, and [`laws`] what holds of every
//! registry.
pub mod animal;
pub mod cow;
pub mod error;
pub mod hall;
pub mod laws;
pub mod listing;
pub mod lookup;
pub mod model;
pub mod names;
pub mod slaughterhouse;

pub use crate::animal::{Animal, AnimalClone};
pub use crate::cow::Cow;
pub use crate::error::Error;
pub use crate::hall::Hall;
pub use crate::model::Hook;
pub use crate::slaughterhouse::{new, Locations, Slaughterhouse, Unit};
