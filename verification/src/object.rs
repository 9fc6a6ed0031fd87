//! Objects: a shape, placed in the scene and given a material.
use vstd::prelude::*;
use crate::material::Material;
use crate::matrices::Mat;
use crate::shapes::Shape;
use crate::spaces;

verus! {

/// A shape with its place in the scene and its material. An object is
/// made once and not changed after it has joined a scene.
#[derive(Debug, Copy, Clone, PartialEq)]
pub struct Object {
    /// The shape, in the object's own frame.
    pub inner: Shape,
    /// Takes the scene's frame to the object's own.
    pub transform: Mat<4, spaces::World, spaces::Object>,
    /// Takes normals of the object's frame to the scene's: `transform`
    /// mirrored at its diagonal.
    pub transp_transform: Mat<4, spaces::Object, spaces::World>,
    /// What the surface is made of.
    pub material: Material,
}

impl Object {
    /// Whether the matrix for normals is the mirror image of the matrix
    /// for points.
    pub open spec fn wf(self) -> bool {
        self.transp_transform.is_transpose_of(self.transform)
    }

    /// The shape at the origin of the scene, unturned and unscaled, of
    /// plain material.
    pub fn new(inner: Shape) -> (o: Self)
        ensures
            o.inner == inner,
            o.transform.is_identity(),
            o.transp_transform.is_identity(),
            o.material.is_plain(),
            o.wf(),
    {
        Object {
            inner,
            transform: Mat::identity(),
            transp_transform: Mat::identity(),
            material: Material::default(),
        }
    }

    /// The same object placed by `world_to_object`, the matrix that takes
    /// the scene's frame to the object's own.
    pub fn with_transform(
        self,
        world_to_object: Mat<4, spaces::World, spaces::Object>,
    ) -> (o: Self)
        ensures
            o.inner == self.inner,
            o.material == self.material,
            o.transform == world_to_object,
            o.transp_transform.is_transpose_of(world_to_object),
            o.wf(),
    {
        Object {
            inner: self.inner,
            transform: world_to_object,
            transp_transform: world_to_object.transpose(),
            material: self.material,
        }
    }

    /// The same object of another material.
    pub fn with_material(self, material: Material) -> (o: Self)
        ensures
            o == (Object { material, ..self }),
    {
        let mut o = self;
        o.material = material;
        o
    }
}

} // verus!
