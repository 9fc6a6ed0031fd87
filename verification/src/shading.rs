//! The rules of shading: which light counts at a point of a surface, and
//! which side of the surface the eye is on.
//!
//! The rules take the numbers that they decide on and give back the
//! decision; what the numbers are worked out from is not their concern.
use vstd::prelude::*;
use crate::scalar::Scalar;
use crate::shapes::PLANE_PARALLEL;
use crate::world::MIN_CONTRIBUTION;

verus! {

/// The encoding of 0.01: how far along its own direction a mirrored or
/// refracted ray, or a ray towards the light, starts from the surface that
/// it leaves, so as not to meet that surface again.
pub const ESCAPE: u64 = 0x3F84_7AE1_47AE_147B;

/// The light that counts at a point of a surface.
#[derive(Debug, Copy, Clone, PartialEq, Eq, Structural)]
pub enum Lighting {
    /// Ambient light only: the point lies in shadow, or the light stands
    /// behind the surface.
    Ambient,
    /// Ambient and diffuse light: the light stands in front of the
    /// surface, and its mirror image points away from the eye.
    Diffuse,
    /// Ambient, diffuse and specular light.
    Specular,
}

/// How the share of light that a boundary mirrors is worked out.
#[derive(Debug, Copy, Clone, PartialEq, Eq, Structural)]
pub enum Reflectance {
    /// All light is mirrored: the ray cannot leave the denser medium.
    Total,
    /// From the angle of the ray behind the boundary: the ray leaves the
    /// denser medium.
    Transmitted,
    /// From the angle of the ray in front of the boundary.
    Incident,
}

/// Whether the eye looks at a surface from inside the solid: the outward
/// normal points away from the eye, and is to be turned round.
pub fn seen_from_inside(normal_dot_eye: Scalar) -> (r: bool)
    ensures
        r == normal_dot_eye.spec_lt(Scalar { bits: 0 }),
{
    normal_dot_eye.lt(Scalar::zero())
}

/// The light that counts at a point: ambient light always; diffuse light
/// where the point is not in shadow and the light stands in front of the
/// surface; specular light where, besides, the mirror image of the light
/// points towards the eye.
pub open spec fn spec_lighting(
    in_shadow: bool,
    light_dot_normal: Scalar,
    reflect_dot_eye: Scalar,
) -> Lighting {
    if in_shadow || !(Scalar { bits: 0 }).spec_lt(light_dot_normal) {
        Lighting::Ambient
    } else if !(Scalar { bits: 0 }).spec_lt(reflect_dot_eye) {
        Lighting::Diffuse
    } else {
        Lighting::Specular
    }
}

/// The light that counts at a point, from whether the point is in shadow,
/// the cosine between the direction of the light and the normal, and the
/// cosine between the mirrored direction of the light and the eye.
#[verifier::when_used_as_spec(spec_lighting)]
pub fn lighting(in_shadow: bool, light_dot_normal: Scalar, reflect_dot_eye: Scalar) -> (r: Lighting)
    ensures
        r == spec_lighting(in_shadow, light_dot_normal, reflect_dot_eye),
{
    if in_shadow || !Scalar::zero().lt(light_dot_normal) {
        Lighting::Ambient
    } else if !Scalar::zero().lt(reflect_dot_eye) {
        Lighting::Diffuse
    } else {
        Lighting::Specular
    }
}

/// Whether a point is in shadow: the ray from the point towards the light
/// meets a surface, at `hit`, before it has gone the distance to the light.
pub fn shadowed(hit: Option<Scalar>, light_distance: Scalar) -> (r: bool)
    ensures
        r == match hit {
            Some(t) => t.spec_lt(light_distance),
            None => false,
        },
{
    match hit {
        Some(t) => t.lt(light_distance),
        None => false,
    }
}

/// Whether a ray cannot pass a boundary: the square of the sine of its
/// angle behind the boundary would be above one. No ray is followed through
/// the boundary then, and what passes through is black.
pub fn total_internal_reflection(sin2_t: Scalar) -> (r: bool)
    ensures
        r == (Scalar { bits: 0x3FF0_0000_0000_0000 }).spec_lt(sin2_t),
{
    Scalar::one().lt(sin2_t)
}

/// How the reflectance at a boundary is worked out, from the refractive
/// index `n1` in front of the boundary, `n2` behind it, and the square of
/// the sine of the angle behind it.
pub open spec fn spec_reflectance(n1: Scalar, n2: Scalar, sin2_t: Scalar) -> Reflectance {
    if n2.spec_lt(n1) {
        if (Scalar { bits: 0x3FF0_0000_0000_0000 }).spec_lt(sin2_t) {
            Reflectance::Total
        } else {
            Reflectance::Transmitted
        }
    } else {
        Reflectance::Incident
    }
}

/// How the reflectance at a boundary is worked out.
#[verifier::when_used_as_spec(spec_reflectance)]
pub fn reflectance(n1: Scalar, n2: Scalar, sin2_t: Scalar) -> (r: Reflectance)
    ensures
        r == spec_reflectance(n1, n2, sin2_t),
{
    if n2.lt(n1) {
        if total_internal_reflection(sin2_t) {
            Reflectance::Total
        } else {
            Reflectance::Transmitted
        }
    } else {
        Reflectance::Incident
    }
}

/// A point in shadow gets ambient light only, wherever the light and the
/// eye stand.
pub proof fn lemma_shadow_leaves_ambient(light_dot_normal: Scalar, reflect_dot_eye: Scalar)
    ensures
        spec_lighting(true, light_dot_normal, reflect_dot_eye) == Lighting::Ambient,
{
}

/// Where no ray passes a boundary out of the denser medium, all light is
/// mirrored.
pub proof fn lemma_total_reflection(n1: Scalar, n2: Scalar, sin2_t: Scalar)
    requires
        n2.spec_lt(n1),
        (Scalar { bits: 0x3FF0_0000_0000_0000 }).spec_lt(sin2_t),
    ensures
        spec_reflectance(n1, n2, sin2_t) == Reflectance::Total,
{
}

/// The three small numbers of the library stand in a fixed order: a ray
/// counts as running along a plane below a smaller number than the share
/// of a pixel below which a ray is not followed, and that share is smaller
/// than the step by which a ray escapes a surface.
pub proof fn lemma_small_numbers_in_order()
    ensures
        (Scalar { bits: PLANE_PARALLEL }).spec_lt(Scalar { bits: MIN_CONTRIBUTION }),
        (Scalar { bits: MIN_CONTRIBUTION }).spec_lt(Scalar { bits: ESCAPE }),
        (Scalar { bits: 0 }).spec_lt(Scalar { bits: PLANE_PARALLEL }),
{
}

} // verus!
