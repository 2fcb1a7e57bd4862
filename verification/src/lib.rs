//! A map with one slot for every value of a finite key type.
//!
//! The keys of a type that implements [`Internal`] are numbered densely from
//! zero. An [`EnumMap`] stores one value per key, in the order of that
//! numbering, so a lookup is one conversion and one array access and never
//! fails.

pub mod enum_map_impls;
pub mod internal;
pub mod iter;
pub mod laws;
pub mod map;

pub use crate::internal::Internal;
pub use crate::iter::{IntoIter, Iter, IterMut};
pub use crate::map::EnumMap;
