use ray_tracer_challenge::spaces;
use ray_tracer_challenge::{Mat, Material, Object, Scalar, Shape};

fn s(v: f64) -> Scalar {
    Scalar::from_bits(v.to_bits())
}

fn f(v: Scalar) -> f64 {
    f64::from_bits(v.to_bits())
}

#[test]
fn defaults() {
    let o = Object::new(Shape::Sphere);
    assert_eq!(o.transform, Mat::identity());
    assert_eq!(o.transp_transform, Mat::identity());
    assert_eq!(f(o.material.ambient), f(Material::default().ambient));
    assert_eq!(o.inner, Shape::Sphere);
}

#[test]
fn with_material() {
    let mat = Material::default().with_ambient(s(13.0));
    let o = Object::new(Shape::Sphere).with_material(mat);
    assert_eq!(o.transform, Mat::identity());
    assert_eq!(o.transp_transform, Mat::identity());
    assert_eq!(f(o.material.ambient), 13.0);
}

/// The matrix of a turn by 1 about x followed by a turn by 2 about y, and
/// its inverse: the inverse of a turn is its mirror image.
fn turned() -> ([[f64; 4]; 4], [[f64; 4]; 4]) {
    let (sx, cx) = 1.0f64.sin_cos();
    let (sy, cy) = 2.0f64.sin_cos();
    let rx = [[1.0, 0.0, 0.0, 0.0], [0.0, cx, -sx, 0.0], [0.0, sx, cx, 0.0], [0.0, 0.0, 0.0, 1.0]];
    let ry = [[cy, 0.0, sy, 0.0], [0.0, 1.0, 0.0, 0.0], [-sy, 0.0, cy, 0.0], [0.0, 0.0, 0.0, 1.0]];
    let mut t = [[0.0; 4]; 4];
    let mut inv = [[0.0; 4]; 4];
    for r in 0..4 {
        for c in 0..4 {
            t[r][c] = (0..4).map(|k| ry[r][k] * rx[k][c]).sum();
        }
    }
    for r in 0..4 {
        for c in 0..4 {
            inv[r][c] = t[c][r];
        }
    }
    (t, inv)
}

#[test]
fn with_transform() {
    let (t, inv) = turned();
    let world_to_object: Mat<4, spaces::World, spaces::Object> = Mat::new(inv.map(|r| r.map(s)));
    let o = Object::new(Shape::Sphere).with_transform(world_to_object);
    assert_eq!(o.transform, world_to_object);
    assert_eq!(o.transp_transform, Mat::new(t.map(|r| r.map(s))));
    assert_eq!(o.transp_transform, world_to_object.transpose());
    assert_eq!(f(o.material.ambient), f(Material::default().ambient));
}

#[test]
fn with_both() {
    let (t, inv) = turned();
    let world_to_object: Mat<4, spaces::World, spaces::Object> = Mat::new(inv.map(|r| r.map(s)));
    let o = Object::new(Shape::Sphere)
        .with_material(Material::default().with_ambient(s(13.0)))
        .with_transform(world_to_object);
    assert_eq!(o.transform, world_to_object);
    assert_eq!(o.transp_transform, Mat::new(t.map(|r| r.map(s))));
    assert_eq!(f(o.material.ambient), 13.0);
}

#[test]
fn with_transform_keeps_the_mirror_image() {
    let rows = [
        [0.5, 0.0, 0.0, -1.0],
        [0.0, 0.25, 0.0, 2.0],
        [0.0, 0.0, 2.0, -3.0],
        [0.0, 0.0, 0.0, 1.0],
    ];
    let t: Mat<4, spaces::World, spaces::Object> = Mat::new(rows.map(|r| r.map(s)));
    let o = Object::new(Shape::Cube)
        .with_material(Material::default().with_ambient(s(13.0)))
        .with_transform(t);
    assert_eq!(o.transform, t);
    assert_eq!(o.transp_transform, t.transpose());
    assert_eq!(f(o.transp_transform.get(3, 0)), -1.0);
    assert_eq!(f(o.transp_transform.get(0, 3)), 0.0);
    assert_eq!(f(o.material.ambient), 13.0);
    assert_eq!(o.inner, Shape::Cube);
}
