//! The primitive shapes, each in its own object frame.
//!
//! A shape has no data. What the library decides of a shape needs no
//! rounding: the outward normal at a surface point, and for the cube the
//! part of a ray that lies inside all three pairs of faces.
use vstd::prelude::*;
use crate::intersect::{Intersection, Intersections};
use crate::points::Point;
use crate::scalar::Scalar;
use crate::spaces;
use crate::vectors::Vector;
use crate::world::ObjectIndex;

verus! {

/// The sphere of radius one about the origin.
#[derive(Debug, Copy, Clone, PartialEq)]
pub struct Sphere;

/// The plane through the origin that holds the x and z axes.
#[derive(Debug, Copy, Clone, PartialEq)]
pub struct Plane;

/// The cube with faces at -1 and 1 on every axis.
#[derive(Debug, Copy, Clone, PartialEq)]
pub struct Cube;

/// One of the primitive shapes.
#[derive(Debug, Copy, Clone, PartialEq)]
pub enum Shape {
    Sphere,
    Plane,
    Cube,
}

/// The encoding of 0.00001: a ray whose direction rises or falls less than
/// this for each unit of its length counts as running along the plane.
pub const PLANE_PARALLEL: u64 = 0x3EE4_F8B5_88E3_68F1;

/// The encoding of two to the power of -52: a ray whose direction has a
/// smaller part than this along an axis counts as running along the faces
/// of the cube that face that axis.
pub const SLAB_PARALLEL: u64 = 0x3CB0_0000_0000_0000;

/// The two places along a ray at which it crosses the planes of one pair of
/// opposite faces, in either order.
#[derive(Debug, Copy, Clone)]
pub struct Slab {
    pub a: Scalar,
    pub b: Scalar,
}

impl Slab {
    /// The crossing that the slab is entered at: `a` where `a < b`, else `b`.
    pub open spec fn near(self) -> Scalar {
        if self.a.spec_lt(self.b) {
            self.a
        } else {
            self.b
        }
    }

    /// The crossing that the slab is left at: `b` where `a < b`, else `a`.
    pub open spec fn far(self) -> Scalar {
        if self.a.spec_lt(self.b) {
            self.b
        } else {
            self.a
        }
    }
}

impl Sphere {
    /// The outward normal at a point of the surface: the point itself, read
    /// as a vector.
    pub fn normal(&self, point: Point<spaces::Object>) -> (n: Vector<spaces::Object>)
        ensures
            n.x == point.x,
            n.y == point.y,
            n.z == point.z,
    {
        point.as_vector()
    }
}

impl Sphere {
    /// Whether a ray meets the sphere: the discriminant of the equation of
    /// its crossings is not below zero. A ray that touches the sphere
    /// meets it.
    pub open spec fn meets(discriminant: Scalar) -> bool {
        (Scalar { bits: 0 }).spec_le(discriminant)
    }

    /// Records the crossings of a ray with the sphere, from the
    /// discriminant of the equation of its crossings and the two roots of
    /// that equation: both roots where the ray meets the sphere, equal ones
    /// where it touches, and nothing where it passes by.
    pub fn intersect(
        &self,
        object_index: ObjectIndex,
        discriminant: Scalar,
        near: Scalar,
        far: Scalar,
        inters: &mut Intersections,
    )
        ensures
            Self::meets(discriminant) ==> final(inters)@ == old(inters)@.push(
                Intersection { t: near, object_index },
            ).push(Intersection { t: far, object_index }),
            !Self::meets(discriminant) ==> final(inters)@ == old(inters)@,
    {
        if discriminant.ge(Scalar::zero()) {
            inters.add(near, object_index);
            inters.add(far, object_index);
        }
    }
}

impl Plane {
    /// Whether a ray counts as running along the plane: the y part of its
    /// direction is smaller in size than `PLANE_PARALLEL`.
    pub open spec fn parallel(direction_y: Scalar) -> bool {
        direction_y.spec_abs().spec_lt(Scalar { bits: PLANE_PARALLEL })
    }

    /// Records the crossing of a ray with the plane, from the y part of the
    /// ray's direction and the place `t` at which the line of the ray
    /// crosses the plane: `t`, unless the ray counts as running along the
    /// plane.
    pub fn intersect(
        &self,
        object_index: ObjectIndex,
        direction_y: Scalar,
        t: Scalar,
        inters: &mut Intersections,
    )
        ensures
            Self::parallel(direction_y) ==> final(inters)@ == old(inters)@,
            !Self::parallel(direction_y) ==> final(inters)@ == old(inters)@.push(
                Intersection { t, object_index },
            ),
    {
        if direction_y.abs().lt(Scalar::from_bits(PLANE_PARALLEL)) {
            return;
        }
        inters.add(t, object_index);
    }

    /// The normal of the plane, the same at every point: one unit up the y
    /// axis.
    pub fn normal(&self, point: Point<spaces::Object>) -> (n: Vector<spaces::Object>)
        ensures
            n.x.bits == 0,
            n.y.bits == 0x3FF0_0000_0000_0000,
            n.z.bits == 0,
    {
        Vector::new(Scalar::zero(), Scalar::one(), Scalar::zero())
    }
}

impl Cube {
    /// Whether the normal at `point` lies along the x axis: the x
    /// coordinate is of no smaller size than the other two.
    pub open spec fn along_x(point: Point<spaces::Object>) -> bool {
        &&& point.y.spec_abs().spec_le(point.x.spec_abs())
        &&& point.z.spec_abs().spec_le(point.x.spec_abs())
    }

    /// Whether the normal at `point` lies along the y axis: the x axis
    /// does not come before it, and the y coordinate is of no smaller size
    /// than z.
    pub open spec fn along_y(point: Point<spaces::Object>) -> bool {
        &&& !point.y.spec_abs().spec_le(point.x.spec_abs())
        &&& point.z.spec_abs().spec_le(point.y.spec_abs())
    }

    /// Whether the normal at `point` lies along the z axis: neither of the
    /// other two axes comes before it.
    pub open spec fn along_z(point: Point<spaces::Object>) -> bool {
        !Self::along_x(point) && !Self::along_y(point)
    }

    /// The outward normal at a point of the surface: it lies along the axis
    /// on which the point is farthest from the origin and carries the
    /// point's coordinate on that axis; where two axes tie, x goes before y
    /// and y before z.
    pub fn normal(&self, point: Point<spaces::Object>) -> (n: Vector<spaces::Object>)
        ensures
            Self::along_x(point) ==> n.x == point.x && n.y.bits == 0 && n.z.bits == 0,
            Self::along_y(point) ==> n.x.bits == 0 && n.y == point.y && n.z.bits == 0,
            Self::along_z(point) ==> n.x.bits == 0 && n.y.bits == 0 && n.z == point.z,
    {
        let x: Scalar = point.x.abs();
        let y: Scalar = point.y.abs();
        let z: Scalar = point.z.abs();
        if x.ge(y) {
            if x.ge(z) {
                Vector::new(point.x, Scalar::zero(), Scalar::zero())
            } else {
                Vector::new(Scalar::zero(), Scalar::zero(), point.z)
            }
        } else {
            if y.ge(z) {
                Vector::new(Scalar::zero(), point.y, Scalar::zero())
            } else {
                Vector::new(Scalar::zero(), Scalar::zero(), point.z)
            }
        }
    }

    /// Whether a ray crosses the planes of the two faces on one axis at
    /// places that division gives: the part of its direction along the axis
    /// is not smaller in size than `SLAB_PARALLEL`. A ray that runs along
    /// the faces crosses their planes at infinity.
    pub fn crosses(direction: Scalar) -> (r: bool)
        ensures
            r == (Scalar { bits: SLAB_PARALLEL }).spec_le(direction.spec_abs()),
    {
        direction.abs().ge(Scalar::from_bits(SLAB_PARALLEL))
    }

    /// Where a ray enters the cube: the last of the places at which it
    /// enters the three slabs.
    pub open spec fn entry(x: Slab, y: Slab, z: Slab) -> Scalar {
        x.near().spec_max(y.near()).spec_max(z.near())
    }

    /// Where a ray leaves the cube: the first of the places at which it
    /// leaves the three slabs.
    pub open spec fn exit(x: Slab, y: Slab, z: Slab) -> Scalar {
        x.far().spec_min(y.far()).spec_min(z.far())
    }

    /// Whether a ray with the given slab crossings meets the cube: it
    /// enters the last slab no later than it leaves the first.
    pub open spec fn meets(x: Slab, y: Slab, z: Slab) -> bool {
        Self::entry(x, y, z).spec_le(Self::exit(x, y, z))
    }

    /// Records the crossings of a ray with the cube, from the places at
    /// which the ray crosses the planes of the three pairs of faces: the
    /// place of entry and the place of exit where the ray meets the cube,
    /// and nothing where it passes by.
    pub fn intersect(
        &self,
        object_index: ObjectIndex,
        x: Slab,
        y: Slab,
        z: Slab,
        inters: &mut Intersections,
    )
        ensures
            Self::meets(x, y, z) ==> final(inters)@ == old(inters)@.push(
                Intersection { t: Self::entry(x, y, z), object_index },
            ).push(Intersection { t: Self::exit(x, y, z), object_index }),
            !Self::meets(x, y, z) ==> final(inters)@ == old(inters)@,
    {
        let (xmin, xmax) = order(x);
        let (ymin, ymax) = order(y);
        let (zmin, zmax) = order(z);
        let tmin: Scalar = xmin.max(ymin).max(zmin);
        let tmax: Scalar = xmax.min(ymax).min(zmax);
        if tmin.le(tmax) {
            inters.add(tmin, object_index);
            inters.add(tmax, object_index);
        }
    }
}

/// The two crossings of a slab, the nearer first.
fn order(s: Slab) -> (r: (Scalar, Scalar))
    ensures
        r.0 == s.near(),
        r.1 == s.far(),
{
    if s.a.lt(s.b) {
        (s.a, s.b)
    } else {
        (s.b, s.a)
    }
}

impl Shape {
    /// The outward normal of the shape at a point of its surface.
    pub fn normal(&self, point: Point<spaces::Object>) -> (n: Vector<spaces::Object>)
        ensures
            *self == Shape::Sphere ==> n.x == point.x && n.y == point.y && n.z == point.z,
            *self == Shape::Plane ==> n.x.bits == 0 && n.y.bits == 0x3FF0_0000_0000_0000
                && n.z.bits == 0,
            *self == Shape::Cube && Cube::along_x(point) ==> n.x == point.x && n.y.bits == 0
                && n.z.bits == 0,
            *self == Shape::Cube && Cube::along_y(point) ==> n.x.bits == 0 && n.y == point.y
                && n.z.bits == 0,
            *self == Shape::Cube && Cube::along_z(point) ==> n.x.bits == 0 && n.y.bits == 0
                && n.z == point.z,
    {
        match self {
            Shape::Sphere => Sphere.normal(point),
            Shape::Plane => Plane.normal(point),
            Shape::Cube => Cube.normal(point),
        }
    }
}

/// At a point whose coordinates are numbers, the normal of the cube lies
/// along the axis of the coordinate of largest size: along x where x is of
/// no smaller size than y and z, along y where y is larger than x and no
/// smaller than z, along z where z is larger than both.
pub proof fn lemma_cube_normal_axis(point: Point<spaces::Object>)
    requires
        point.x.is_number(),
        point.y.is_number(),
        point.z.is_number(),
    ensures
        Cube::along_x(point) <==> point.y.magnitude() <= point.x.magnitude() && point.z.magnitude()
            <= point.x.magnitude(),
        Cube::along_y(point) <==> point.x.magnitude() < point.y.magnitude() && point.z.magnitude()
            <= point.y.magnitude(),
        Cube::along_z(point) <==> point.x.magnitude() < point.z.magnitude() && point.y.magnitude()
            < point.z.magnitude(),
{
}

} // verus!
