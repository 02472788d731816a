//! A small growable, indexable sequence container with a borrowing
//! forward view, verified with Verus.

pub mod lemmas;
pub mod toy_vec;

pub use toy_vec::{Iter, ToyVec};
