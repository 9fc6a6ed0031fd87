//! Surface patterns: which colors a surface shows, and in which frame.
use vstd::prelude::*;
use crate::colors::Color;
use crate::matrices::Mat;
use crate::scalar::Scalar;
use crate::spaces;

verus! {

/// The rule by which a pattern picks its color at a point.
#[derive(Debug, Copy, Clone, PartialEq)]
pub enum PatternImpl {
    /// One color everywhere.
    Solid(Color),
    /// Two colors that take turns along x.
    Stripe(Color, Color),
    /// A blend from the first color to the second along x.
    Gradient(Color, Color),
    /// Two colors that take turns along all three axes.
    Checker(Color, Color),
    /// Two colors that take turns with the distance from the y axis.
    Ring(Color, Color),
}

/// A pattern of colors on a surface.
#[derive(Debug, Copy, Clone, PartialEq)]
pub struct Pattern {
    /// Takes a point of the object to the frame of the pattern.
    pub transform: Mat<4, spaces::Object, spaces::Pattern>,
    /// The rule of the pattern.
    pub pattern_impl: PatternImpl,
}

/// The color of a pattern of two colors that take turns: `a` where the
/// phase, which runs from 0 to 2, is below 1, and `b` from 1 on.
pub fn alternate(a: Color, b: Color, phase: Scalar) -> (c: Color)
    ensures
        c == if phase.spec_lt(Scalar { bits: 0x3FF0_0000_0000_0000 }) {
            a
        } else {
            b
        },
{
    if phase.lt(Scalar::one()) {
        a
    } else {
        b
    }
}

impl Pattern {
    /// The pattern with the given rule, laid out in the object's own frame.
    fn new(pattern_impl: PatternImpl) -> (p: Self)
        ensures
            p.pattern_impl == pattern_impl,
            p.transform.is_identity(),
    {
        Pattern { transform: Mat::identity(), pattern_impl }
    }

    /// One color everywhere.
    pub fn solid(c: Color) -> (p: Self)
        ensures
            p.pattern_impl == PatternImpl::Solid(c),
            p.transform.is_identity(),
    {
        Self::new(PatternImpl::Solid(c))
    }

    /// Stripes of `a` and `b`.
    pub fn stripe(a: Color, b: Color) -> (p: Self)
        ensures
            p.pattern_impl == PatternImpl::Stripe(a, b),
            p.transform.is_identity(),
    {
        Self::new(PatternImpl::Stripe(a, b))
    }

    /// A blend from `a` to `b`.
    pub fn gradient(a: Color, b: Color) -> (p: Self)
        ensures
            p.pattern_impl == PatternImpl::Gradient(a, b),
            p.transform.is_identity(),
    {
        Self::new(PatternImpl::Gradient(a, b))
    }

    /// Cubes of `a` and `b`.
    pub fn checker(a: Color, b: Color) -> (p: Self)
        ensures
            p.pattern_impl == PatternImpl::Checker(a, b),
            p.transform.is_identity(),
    {
        Self::new(PatternImpl::Checker(a, b))
    }

    /// Rings of `a` and `b`.
    pub fn ring(a: Color, b: Color) -> (p: Self)
        ensures
            p.pattern_impl == PatternImpl::Ring(a, b),
            p.transform.is_identity(),
    {
        Self::new(PatternImpl::Ring(a, b))
    }

    /// The same pattern laid out by `object_to_pattern`, the matrix that
    /// takes a point of the object to the frame of the pattern.
    pub fn with_transform(
        self,
        object_to_pattern: Mat<4, spaces::Object, spaces::Pattern>,
    ) -> (p: Self)
        ensures
            p.pattern_impl == self.pattern_impl,
            p.transform == object_to_pattern,
    {
        Pattern { transform: object_to_pattern, pattern_impl: self.pattern_impl }
    }

    /// The color of the pattern where it shows one color everywhere.
    pub fn solid_color(&self) -> (c: Option<Color>)
        ensures
            c == match self.pattern_impl {
                PatternImpl::Solid(k) => Some(k),
                _ => None::<Color>,
            },
    {
        match self.pattern_impl {
            PatternImpl::Solid(k) => Some(k),
            _ => None,
        }
    }
}

} // verus!
