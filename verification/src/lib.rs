//! A ray tracer's deciding core: the frames, shapes, materials and scene of
//! a picture, the crossings of a ray with the scene, and the resolution of
//! what the ray sees and which media it travels in.
pub mod camera;
pub mod canvas;
pub mod colors;
pub mod intersect;
pub mod light;
pub mod material;
pub mod media;
pub mod matrices;
pub mod object;
pub mod ordering;
pub mod pattern;
pub mod points;
pub mod ray;
pub mod scalar;
pub mod shading;
pub mod shapes;
pub mod space;
pub mod spaces;
pub mod vectors;
pub mod world;

pub use camera::{Camera, PixelIterator};
pub use canvas::Canvas;
pub use colors::{Color, ColorIterator};
pub use intersect::{Intersection, Intersections};
pub use light::Light;
pub use material::{Material, Secondary};
pub use matrices::Mat;
pub use object::Object;
pub use pattern::{Pattern, PatternImpl};
pub use points::Point;
pub use ray::Ray;
pub use scalar::Scalar;
pub use shading::{Lighting, Reflectance};
pub use shapes::{Cube, Plane, Shape, Slab, Sphere};
pub use space::Space;
pub use vectors::Vector;
pub use world::{ObjectIndex, World};
