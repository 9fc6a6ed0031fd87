//! Locations in a coordinate frame.
use vstd::prelude::*;
use core::marker::PhantomData;
use crate::scalar::Scalar;
use crate::space::Space;
use crate::vectors::Vector;

verus! {

/// A location in the frame `S`. Under a 4-dimensional transformation it
/// acts as though it had a fourth coordinate equal to one.
#[derive(Debug, PartialEq)]
pub struct Point<S: Space> {
    pub x: Scalar,
    pub y: Scalar,
    pub z: Scalar,
    pub space: PhantomData<S>,
}

impl<S: Space> Clone for Point<S> {
    fn clone(&self) -> (r: Self)
        ensures
            r == *self,
    {
        *self
    }
}

impl<S: Space> Copy for Point<S> {
}

impl<S: Space> Point<S> {
    /// The point with the given coordinates.
    pub fn new(x: Scalar, y: Scalar, z: Scalar) -> (p: Self)
        ensures
            p.x == x,
            p.y == y,
            p.z == z,
    {
        Point { x, y, z, space: PhantomData }
    }

    /// The vector that leads from the origin to the point.
    pub fn as_vector(&self) -> (v: Vector<S>)
        ensures
            v.x == self.x,
            v.y == self.y,
            v.z == self.z,
    {
        Vector::new(self.x, self.y, self.z)
    }

    /// The point with the same coordinates in another frame.
    pub fn as_space<S2: Space>(&self) -> (p: Point<S2>)
        ensures
            p.x == self.x,
            p.y == self.y,
            p.z == self.z,
    {
        Point { x: self.x, y: self.y, z: self.z, space: PhantomData }
    }
}

impl<S: Space> Default for Point<S> {
    /// The point at the origin.
    fn default() -> (r: Self)
        ensures
            r.x.bits == 0,
            r.y.bits == 0,
            r.z.bits == 0,
    {
        Point::new(Scalar::zero(), Scalar::zero(), Scalar::zero())
    }
}

} // verus!
