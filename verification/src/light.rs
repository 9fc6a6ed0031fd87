//! The light of a scene.
use vstd::prelude::*;
use crate::colors::Color;
use crate::points::Point;
use crate::scalar::Scalar;
use crate::spaces;

verus! {

/// A light that shines from one point in all directions.
#[derive(Debug, Copy, Clone, PartialEq)]
pub struct Light {
    pub position: Point<spaces::World>,
    pub intensity: Color,
}

impl Light {
    /// The point light at `position` with the color `intensity`.
    pub fn new_point(position: Point<spaces::World>, intensity: Color) -> (l: Self)
        ensures
            l.position == position,
            l.intensity == intensity,
    {
        Light { position, intensity }
    }
}

impl Default for Light {
    /// A black light at the origin.
    fn default() -> (l: Self)
        ensures
            l.position.x.bits == 0,
            l.position.y.bits == 0,
            l.position.z.bits == 0,
            l.intensity.is_black(),
    {
        Light {
            position: Point::new(Scalar::zero(), Scalar::zero(), Scalar::zero()),
            intensity: Color::black(),
        }
    }
}

} // verus!
