//! The coordinate frames that a scene uses.
use vstd::prelude::*;
use crate::space::Space;

verus! {

/// The frame in which the objects of a scene are placed.
#[derive(Default, PartialEq, Clone, Copy, Debug)]
pub struct World;

impl Space for World {
}

/// The frame in which a shape is defined. Every object has its own, and
/// one tag stands for all of them.
#[derive(Default, PartialEq, Clone, Copy, Debug)]
pub struct Object;

impl Space for Object {
}

/// The frame of the camera: the eye at the origin, looking down -z.
#[derive(Default, PartialEq, Clone, Copy, Debug)]
pub struct Camera;

impl Space for Camera {
}

/// The frame in which a surface pattern is defined.
#[derive(Default, PartialEq, Clone, Copy, Debug)]
pub struct Pattern;

impl Space for Pattern {
}

} // verus!
