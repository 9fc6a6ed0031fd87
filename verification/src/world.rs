//! The scene: one light and the objects, found again by their index.
use vstd::prelude::*;
use crate::colors::Color;
use crate::light::Light;
use crate::intersect::Intersection;
use crate::media::{has_visible, lemma_hit_has_medium, medium_after, medium_before};
use crate::object::Object;
use crate::points::Point;
use crate::scalar::Scalar;

verus! {

/// The encoding of 0.001: a ray that can add less than this share to a
/// pixel is not followed.
pub const MIN_CONTRIBUTION: u64 = 0x3F50_624D_D2F1_A9FC;

/// The place of an object in a scene: objects are numbered from zero in
/// the order in which they were added.
#[derive(Debug, Clone, Copy, PartialEq, Eq, Structural)]
pub struct ObjectIndex(pub usize);

impl ObjectIndex {
    /// The index with the given number, for use where no scene is at hand.
    pub fn test_value(i: usize) -> (idx: ObjectIndex)
        ensures
            idx.0 == i,
    {
        ObjectIndex(i)
    }
}

/// A scene: one light, and objects that are only ever added.
#[derive(Debug)]
pub struct World {
    light: Light,
    objects: Vec<Object>,
}

impl View for World {
    type V = Seq<Object>;

    /// The objects in the order in which they were added.
    closed spec fn view(&self) -> Seq<Object> {
        self.objects@
    }
}

impl World {
    /// The light of the scene.
    pub closed spec fn spec_light(&self) -> Light {
        self.light
    }

    /// The light of the scene.
    #[verifier::when_used_as_spec(spec_light)]
    pub fn light(&self) -> (l: Light)
        ensures
            l == self.spec_light(),
    {
        self.light
    }

    /// Whether `idx` names an object of this scene.
    pub open spec fn has(&self, idx: ObjectIndex) -> bool {
        idx.0 < self@.len()
    }

    /// The empty scene under the given light.
    pub fn new(light: Light) -> (w: Self)
        ensures
            w.light() == light,
            w@ == Seq::<Object>::empty(),
    {
        World { light, objects: Vec::new() }
    }

    /// Adds an object and returns the index under which the scene holds
    /// it. The objects added before keep their indices.
    pub fn add_object(&mut self, obj: Object) -> (idx: ObjectIndex)
        ensures
            idx.0 == old(self)@.len(),
            final(self)@ == old(self)@.push(obj),
            final(self).light() == old(self).light(),
            final(self).has(idx),
            final(self)@[idx.0 as int] == obj,
    {
        let idx = ObjectIndex(self.objects.len());
        self.objects.push(obj);
        idx
    }

    /// Replaces the light.
    pub fn set_light(&mut self, light: Light)
        ensures
            final(self).light() == light,
            final(self)@ == old(self)@,
    {
        self.light = light;
    }

    /// The number of objects in the scene.
    pub fn len(&self) -> (n: usize)
        ensures
            n == self@.len(),
    {
        self.objects.len()
    }

    /// The object that the scene holds under `idx`.
    pub fn object(&self, idx: ObjectIndex) -> (o: &Object)
        requires
            self.has(idx),
        ensures
            *o == self@[idx.0 as int],
    {
        &self.objects[idx.0]
    }

    /// The object that the scene holds under `idx`, if `idx` is one of its
    /// indices.
    pub fn get(&self, idx: ObjectIndex) -> (o: Option<&Object>)
        ensures
            self.has(idx) ==> o == Some(&self@[idx.0 as int]),
            !self.has(idx) ==> o.is_none(),
    {
        if idx.0 < self.objects.len() {
            Some(&self.objects[idx.0])
        } else {
            None
        }
    }

    /// Whether a ray that can add the share `contribution` to a pixel is
    /// not worth following: the share is below the least that counts.
    pub fn negligible(contribution: Scalar) -> (r: bool)
        ensures
            r == contribution.spec_lt(Scalar { bits: MIN_CONTRIBUTION }),
    {
        contribution.lt(Scalar::from_bits(MIN_CONTRIBUTION))
    }

    /// The object whose surface a ray has met: the medium behind the
    /// crossing, or the medium before it where empty space lies behind.
    pub open spec fn spec_hit_object(
        from: Option<ObjectIndex>,
        to: Option<ObjectIndex>,
    ) -> Option<ObjectIndex> {
        if to.is_some() {
            to
        } else {
            from
        }
    }

    /// The object whose surface a ray has met: the medium behind the
    /// crossing, or the medium before it where empty space lies behind. A
    /// ray that leaves the last solid around it is shaded with the material
    /// of that solid.
    #[verifier::when_used_as_spec(spec_hit_object)]
    pub fn hit_object(from: Option<ObjectIndex>, to: Option<ObjectIndex>) -> (r: Option<ObjectIndex>)
        ensures
            r == Self::spec_hit_object(from, to),
    {
        match to {
            Some(i) => Some(i),
            None => from,
        }
    }
}

impl Default for World {
    /// The empty scene under a white light at (-10, 10, -10).
    fn default() -> (w: Self)
        ensures
            w@ == Seq::<Object>::empty(),
            w.light().position.x.bits == 0xC024_0000_0000_0000,
            w.light().position.y.bits == 0x4024_0000_0000_0000,
            w.light().position.z.bits == 0xC024_0000_0000_0000,
            w.light().intensity.is_white(),
    {
        World {
            light: Light::new_point(
                Point::new(
                    Scalar::from_bits(0xC024_0000_0000_0000),
                    Scalar::from_bits(0x4024_0000_0000_0000),
                    Scalar::from_bits(0xC024_0000_0000_0000),
                ),
                Color::white(),
            ),
            objects: Vec::new(),
        }
    }
}

/// An index that a scene has given out stays good, and names the same
/// object, however many objects are added after it.
pub proof fn lemma_index_stays_valid(before: Seq<Object>, added: Seq<Object>, idx: ObjectIndex)
    requires
        idx.0 < before.len(),
    ensures
        idx.0 < (before + added).len(),
        (before + added)[idx.0 as int] == before[idx.0 as int],
{
}

/// A ray that meets a surface meets the surface of some object: there is
/// an object to shade it with.
pub proof fn lemma_hit_object_exists(s: Seq<Intersection>)
    requires
        has_visible(s),
    ensures
        World::spec_hit_object(medium_before(s), medium_after(s)).is_some(),
{
    lemma_hit_has_medium(s);
}

} // verus!
