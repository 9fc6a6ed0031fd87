//! Coordinate frames as compile-time tags.
use vstd::prelude::*;

verus! {

/// A coordinate frame. A tag has no data: it only keeps a value of one
/// frame from being used where one of another frame is expected.
pub trait Space: Default + PartialEq + Clone + Copy + core::fmt::Debug {
}

} // verus!
