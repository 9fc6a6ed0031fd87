//! Displacements in a coordinate frame.
use vstd::prelude::*;
use core::marker::PhantomData;
use crate::points::Point;
use crate::scalar::Scalar;
use crate::space::Space;

verus! {

/// A displacement in the frame `S`. Under a 4-dimensional transformation
/// it acts as though it had a fourth coordinate equal to zero.
#[derive(Debug, PartialEq)]
pub struct Vector<S: Space> {
    pub x: Scalar,
    pub y: Scalar,
    pub z: Scalar,
    pub space: PhantomData<S>,
}

impl<S: Space> Clone for Vector<S> {
    fn clone(&self) -> (r: Self)
        ensures
            r == *self,
    {
        *self
    }
}

impl<S: Space> Copy for Vector<S> {
}

impl<S: Space> Vector<S> {
    /// The vector with the given coordinates.
    pub fn new(x: Scalar, y: Scalar, z: Scalar) -> (v: Self)
        ensures
            v.x == x,
            v.y == y,
            v.z == z,
    {
        Vector { x, y, z, space: PhantomData }
    }

    /// The point that the vector leads to from the origin.
    pub fn as_point(&self) -> (p: Point<S>)
        ensures
            p.x == self.x,
            p.y == self.y,
            p.z == self.z,
    {
        Point::new(self.x, self.y, self.z)
    }

    /// The opposite vector: each coordinate changes its sign.
    pub fn neg(self) -> (v: Self)
        ensures
            v.x.rank() == -self.x.rank(),
            v.y.rank() == -self.y.rank(),
            v.z.rank() == -self.z.rank(),
            v.x.magnitude() == self.x.magnitude(),
            v.y.magnitude() == self.y.magnitude(),
            v.z.magnitude() == self.z.magnitude(),
            v.x.sign() != self.x.sign(),
            v.y.sign() != self.y.sign(),
            v.z.sign() != self.z.sign(),
    {
        Vector { x: self.x.neg(), y: self.y.neg(), z: self.z.neg(), space: PhantomData }
    }
}

impl<S: Space> Default for Vector<S> {
    /// The vector of no length.
    fn default() -> (r: Self)
        ensures
            r.x.bits == 0,
            r.y.bits == 0,
            r.z.bits == 0,
    {
        Vector::new(Scalar::zero(), Scalar::zero(), Scalar::zero())
    }
}

} // verus!
