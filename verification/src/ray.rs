//! Rays: a point of departure and a direction.
use vstd::prelude::*;
use crate::points::Point;
use crate::space::Space;
use crate::vectors::Vector;

verus! {

/// A ray in the frame `S`.
#[derive(Debug, PartialEq)]
pub struct Ray<S: Space> {
    pub origin: Point<S>,
    pub direction: Vector<S>,
}

impl<S: Space> Clone for Ray<S> {
    fn clone(&self) -> (r: Self)
        ensures
            r == *self,
    {
        *self
    }
}

impl<S: Space> Copy for Ray<S> {
}

impl<S: Space> Ray<S> {
    /// The ray that leaves `origin` along `direction`.
    pub fn new(origin: Point<S>, direction: Vector<S>) -> (r: Self)
        ensures
            r.origin == origin,
            r.direction == direction,
    {
        Ray { origin, direction }
    }
}

} // verus!
