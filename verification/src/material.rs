//! What a surface is made of.
use vstd::prelude::*;
use crate::colors::Color;
use crate::pattern::{Pattern, PatternImpl};
use crate::scalar::Scalar;

verus! {

/// The encoding of 0.1, the share of ambient light of a plain material.
pub const DEFAULT_AMBIENT: u64 = 0x3FB9_9999_9999_999A;

/// The encoding of 0.9, the diffuse share of a plain material.
pub const DEFAULT_DIFFUSE: u64 = 0x3FEC_CCCC_CCCC_CCCD;

/// The encoding of 0.9, the specular share of a plain material.
pub const DEFAULT_SPECULAR: u64 = 0x3FEC_CCCC_CCCC_CCCD;

/// The encoding of 200, the shininess of a plain material.
pub const DEFAULT_SHININESS: u64 = 0x4069_0000_0000_0000;

/// The encoding of 1, the refractive index of empty space.
pub const VACUUM_INDEX: u64 = 0x3FF0_0000_0000_0000;

/// The properties of a surface: its pattern of colors, how it answers to
/// light, how much it mirrors and how much it lets through.
#[derive(Debug, Copy, Clone, PartialEq)]
pub struct Material {
    pub pattern: Pattern,
    pub ambient: Scalar,
    pub diffuse: Scalar,
    pub specular: Scalar,
    pub shininess: Scalar,
    pub reflectivity: Scalar,
    pub transparency: Scalar,
    pub refractive_index: Scalar,
}

/// The further rays that a surface asks for, beyond the light that falls
/// on it.
#[derive(Debug, Copy, Clone, PartialEq, Eq, Structural)]
pub enum Secondary {
    /// None: the surface shows its own color only.
    Neither,
    /// A mirrored ray, added in full.
    Reflected,
    /// A ray through the surface, added in full.
    Refracted,
    /// Both, shared out by the reflectance at the angle of view.
    Both,
}

impl Material {
    /// Whether the material is what the description of a scene allows:
    /// reflectivity from 0 to 1, transparency from 0 up to but not
    /// including 1, a refractive index above 0.
    pub open spec fn wf(self) -> bool {
        &&& 0 <= self.reflectivity.rank() <= 0x3FF0_0000_0000_0000 && self.reflectivity.is_number()
        &&& 0 <= self.transparency.rank() < 0x3FF0_0000_0000_0000 && self.transparency.is_number()
        &&& 0 < self.refractive_index.rank() && self.refractive_index.is_number()
    }

    /// Whether the material is the plain one: white everywhere, with the
    /// usual shares of ambient, diffuse and specular light, not mirroring,
    /// not transparent, with the refractive index of empty space.
    pub open spec fn is_plain(self) -> bool {
        &&& self.pattern.pattern_impl == PatternImpl::Solid(
            Color {
                red: Scalar { bits: 0x3FF0_0000_0000_0000 },
                green: Scalar { bits: 0x3FF0_0000_0000_0000 },
                blue: Scalar { bits: 0x3FF0_0000_0000_0000 },
            },
        )
        &&& self.pattern.transform.is_identity()
        &&& self.ambient.bits == DEFAULT_AMBIENT
        &&& self.diffuse.bits == DEFAULT_DIFFUSE
        &&& self.specular.bits == DEFAULT_SPECULAR
        &&& self.shininess.bits == DEFAULT_SHININESS
        &&& self.reflectivity.bits == 0
        &&& self.transparency.bits == 0
        &&& self.refractive_index.bits == VACUUM_INDEX
    }

    /// Whether the surface mirrors at all.
    pub open spec fn spec_reflects(&self) -> bool {
        self.reflectivity.is_number() && self.reflectivity.rank() > 0
    }

    /// Whether the surface lets any light through.
    pub open spec fn spec_refracts(&self) -> bool {
        self.transparency.is_number() && self.transparency.rank() > 0
    }

    /// The further rays that the surface asks for.
    pub open spec fn spec_secondary(&self) -> Secondary {
        if self.spec_reflects() {
            if self.spec_refracts() {
                Secondary::Both
            } else {
                Secondary::Reflected
            }
        } else {
            if self.spec_refracts() {
                Secondary::Refracted
            } else {
                Secondary::Neither
            }
        }
    }

    /// The same material with one color everywhere.
    pub fn with_color(self, color: Color) -> (m: Self)
        ensures
            m.pattern.pattern_impl == PatternImpl::Solid(color),
            m.pattern.transform.is_identity(),
            m == (Material { pattern: m.pattern, ..self }),
    {
        let mut m = self;
        m.pattern = Pattern::solid(color);
        m
    }

    /// The same material with another pattern.
    pub fn with_pattern(self, pattern: Pattern) -> (m: Self)
        ensures
            m == (Material { pattern, ..self }),
    {
        let mut m = self;
        m.pattern = pattern;
        m
    }

    /// The same material with another share of ambient light.
    pub fn with_ambient(self, ambient: Scalar) -> (m: Self)
        ensures
            m == (Material { ambient, ..self }),
    {
        let mut m = self;
        m.ambient = ambient;
        m
    }

    /// The same material with another diffuse share.
    pub fn with_diffuse(self, diffuse: Scalar) -> (m: Self)
        ensures
            m == (Material { diffuse, ..self }),
    {
        let mut m = self;
        m.diffuse = diffuse;
        m
    }

    /// The same material with another specular share.
    pub fn with_specular(self, specular: Scalar) -> (m: Self)
        ensures
            m == (Material { specular, ..self }),
    {
        let mut m = self;
        m.specular = specular;
        m
    }

    /// The same material with another shininess.
    pub fn with_shininess(self, shininess: Scalar) -> (m: Self)
        ensures
            m == (Material { shininess, ..self }),
    {
        let mut m = self;
        m.shininess = shininess;
        m
    }

    /// The same material with another reflectivity.
    pub fn with_reflectivity(self, reflectivity: Scalar) -> (m: Self)
        ensures
            m == (Material { reflectivity, ..self }),
    {
        let mut m = self;
        m.reflectivity = reflectivity;
        m
    }

    /// The same material with another transparency, which is below one,
    /// and another refractive index.
    pub fn with_transparency(self, transparency: Scalar, refractive_index: Scalar) -> (m: Self)
        requires
            transparency.spec_lt(Scalar { bits: 0x3FF0_0000_0000_0000 }),
        ensures
            m == (Material { transparency, refractive_index, ..self }),
    {
        let mut m = self;
        m.transparency = transparency;
        m.refractive_index = refractive_index;
        m
    }

    /// The refractive indices on the two sides of a crossing into this
    /// material: the index of the medium `from` that the ray comes out of,
    /// or that of empty space where it comes out of none, and the index of
    /// this material.
    pub fn indices(&self, from: Option<&Material>) -> (n: (Scalar, Scalar))
        ensures
            n.0 == match from {
                Some(m) => m.refractive_index,
                None => Scalar { bits: VACUUM_INDEX },
            },
            n.1 == self.refractive_index,
    {
        let n1: Scalar = match from {
            Some(m) => m.refractive_index,
            None => Scalar::from_bits(VACUUM_INDEX),
        };
        (n1, self.refractive_index)
    }

    /// Whether the surface mirrors at all: its reflectivity is above zero.
    #[verifier::when_used_as_spec(spec_reflects)]
    pub fn reflects(&self) -> (r: bool)
        ensures
            r == self.spec_reflects(),
    {
        Scalar::zero().lt(self.reflectivity)
    }

    /// Whether the surface lets any light through: its transparency is
    /// above zero.
    #[verifier::when_used_as_spec(spec_refracts)]
    pub fn refracts(&self) -> (r: bool)
        ensures
            r == self.spec_refracts(),
    {
        Scalar::zero().lt(self.transparency)
    }

    /// The further rays that the surface asks for: a mirrored ray where it
    /// mirrors, a ray through it where it lets light through. Where it asks
    /// for one of the two, that ray's color is added as it is; where it asks
    /// for both, the two are shared out by the reflectance; where it asks
    /// for none, nothing is added.
    #[verifier::when_used_as_spec(spec_secondary)]
    pub fn secondary(&self) -> (s: Secondary)
        ensures
            s == self.spec_secondary(),
    {
        if self.reflects() {
            if self.refracts() {
                Secondary::Both
            } else {
                Secondary::Reflected
            }
        } else {
            if self.refracts() {
                Secondary::Refracted
            } else {
                Secondary::Neither
            }
        }
    }
}

impl Default for Material {
    /// A plain white material that neither mirrors nor lets light through.
    fn default() -> (m: Self)
        ensures
            m.is_plain(),
            m.wf(),
            m.spec_secondary() == Secondary::Neither,
    {
        Material {
            pattern: Pattern::solid(Color::white()),
            ambient: Scalar::from_bits(DEFAULT_AMBIENT),
            diffuse: Scalar::from_bits(DEFAULT_DIFFUSE),
            specular: Scalar::from_bits(DEFAULT_SPECULAR),
            shininess: Scalar::from_bits(DEFAULT_SHININESS),
            reflectivity: Scalar::zero(),
            transparency: Scalar::zero(),
            refractive_index: Scalar::from_bits(VACUUM_INDEX),
        }
    }
}

/// A surface of reflectivity zero asks for no mirrored ray, whatever else
/// it is made of: no scene can add a reflection to its color.
pub proof fn lemma_no_reflectivity_no_reflection(m: Material)
    requires
        m.reflectivity.rank() == 0,
    ensures
        !m.spec_reflects(),
        m.spec_secondary() == Secondary::Neither || m.spec_secondary() == Secondary::Refracted,
{
}

/// A surface of transparency zero asks for no ray through it.
pub proof fn lemma_no_transparency_no_refraction(m: Material)
    requires
        m.transparency.rank() == 0,
    ensures
        !m.spec_refracts(),
        m.spec_secondary() == Secondary::Neither || m.spec_secondary() == Secondary::Reflected,
{
}

} // verus!
