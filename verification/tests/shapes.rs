use ray_tracer_challenge::spaces;
use ray_tracer_challenge::{Cube, Intersections, ObjectIndex, Plane, Point, Scalar, Shape, Slab, Sphere, Vector};

fn s(v: f64) -> Scalar {
    Scalar::from_bits(v.to_bits())
}

fn f(v: Scalar) -> f64 {
    f64::from_bits(v.to_bits())
}

fn p(x: f64, y: f64, z: f64) -> Point<spaces::Object> {
    Point::new(s(x), s(y), s(z))
}

fn v(x: f64, y: f64, z: f64) -> Vector<spaces::Object> {
    Vector::new(s(x), s(y), s(z))
}

/// Where a ray with origin coordinate `origin` and direction coordinate
/// `direction` crosses the planes at -1 and 1 on that axis.
fn slab(origin: f64, direction: f64) -> Slab {
    let near = -1.0 - origin;
    let far = 1.0 - origin;
    if Cube::crosses(s(direction)) {
        Slab { a: s(near / direction), b: s(far / direction) }
    } else {
        Slab { a: s(near * f64::INFINITY), b: s(far * f64::INFINITY) }
    }
}

fn cube_crossings(origin: (f64, f64, f64), direction: (f64, f64, f64)) -> Vec<f64> {
    let oi = ObjectIndex::test_value(7);
    let mut inters = Intersections::default();
    Cube.intersect(
        oi,
        slab(origin.0, direction.0),
        slab(origin.1, direction.1),
        slab(origin.2, direction.2),
        &mut inters,
    );
    let all = inters.iter();
    for h in all.iter() {
        assert_eq!(h.object_index, oi);
    }
    all.iter().map(|h| f(h.t)).collect()
}

#[test]
fn pos_x() {
    assert_eq!(cube_crossings((5.0, 0.5, 0.0), (-1.0, 0.0, 0.0)), vec![4.0, 6.0]);
}

#[test]
fn neg_x() {
    assert_eq!(cube_crossings((-5.0, 0.5, 0.0), (1.0, 0.0, 0.0)), vec![4.0, 6.0]);
}

#[test]
fn pos_y() {
    assert_eq!(cube_crossings((0.5, 5.0, 0.0), (0.0, -1.0, 0.0)), vec![4.0, 6.0]);
}

#[test]
fn neg_y() {
    assert_eq!(cube_crossings((0.5, -5.0, 0.0), (0.0, 1.0, 0.0)), vec![4.0, 6.0]);
}

#[test]
fn pos_z() {
    assert_eq!(cube_crossings((0.5, 0.0, 5.0), (0.0, 0.0, -1.0)), vec![4.0, 6.0]);
}

#[test]
fn neg_z() {
    assert_eq!(cube_crossings((0.5, 0.0, -5.0), (0.0, 0.0, 1.0)), vec![4.0, 6.0]);
}

#[test]
fn inside() {
    assert_eq!(cube_crossings((0.0, 0.5, 0.0), (0.0, 0.0, 1.0)), vec![-1.0, 1.0]);
}

#[test]
fn miss_oblique_x() {
    assert!(cube_crossings((-2.0, 0.0, 0.0), (0.2673, 0.5345, 0.8018)).is_empty());
}

#[test]
fn miss_oblique_y() {
    assert!(cube_crossings((0.0, -2.0, 0.0), (0.8018, 0.2673, 0.5345)).is_empty());
}

#[test]
fn miss_oblique_z() {
    assert!(cube_crossings((0.0, 0.0, -2.0), (0.5345, 0.8018, 0.2673)).is_empty());
}

#[test]
fn miss_z() {
    assert!(cube_crossings((2.0, 0.0, 2.0), (0.0, 0.0, -1.0)).is_empty());
}

#[test]
fn miss_y() {
    assert!(cube_crossings((0.0, 2.0, 2.0), (0.0, -1.0, 0.0)).is_empty());
}

#[test]
fn miss_x() {
    assert!(cube_crossings((2.0, 2.0, 0.0), (-1.0, 0.0, 0.0)).is_empty());
}

#[test]
fn cube_slabs_in_either_order() {
    let oi = ObjectIndex::test_value(2);
    let mut inters = Intersections::default();
    Cube.intersect(
        oi,
        Slab { a: s(6.0), b: s(4.0) },
        Slab { a: s(f64::NEG_INFINITY), b: s(f64::INFINITY) },
        Slab { a: s(f64::INFINITY), b: s(f64::NEG_INFINITY) },
        &mut inters,
    );
    let got: Vec<f64> = inters.iter().iter().map(|h| f(h.t)).collect();
    assert_eq!(got, vec![4.0, 6.0]);
}

#[test]
fn cube_touched_at_an_edge_is_met_twice_at_one_place() {
    let oi = ObjectIndex::test_value(2);
    let mut inters = Intersections::default();
    Cube.intersect(
        oi,
        Slab { a: s(1.0), b: s(3.0) },
        Slab { a: s(3.0), b: s(5.0) },
        Slab { a: s(-10.0), b: s(10.0) },
        &mut inters,
    );
    let got: Vec<f64> = inters.iter().iter().map(|h| f(h.t)).collect();
    assert_eq!(got, vec![3.0, 3.0]);
}

#[test]
fn cube_slab_without_a_number() {
    // a ray in the plane of a face, along the face: 0 * infinity on that axis
    let oi = ObjectIndex::test_value(2);
    let y = Slab { a: s(4.0), b: s(6.0) };
    let z = Slab { a: s(f64::NEG_INFINITY), b: s(f64::INFINITY) };

    // the far side has no number: the slab bounds nothing
    let mut inters = Intersections::default();
    Cube.intersect(oi, Slab { a: s(f64::INFINITY), b: s(f64::NAN) }, y, z, &mut inters);
    let got: Vec<f64> = inters.iter().iter().map(|h| f(h.t)).collect();
    assert_eq!(got, vec![4.0, 6.0]);

    // the near side has no number: the slab is entered at infinity, never
    let mut inters = Intersections::default();
    Cube.intersect(oi, Slab { a: s(f64::NAN), b: s(f64::INFINITY) }, y, z, &mut inters);
    assert_eq!(inters.len(), 0);
}

#[test]
fn norm_pos_x() {
    assert_eq!(Cube.normal(p(1.0, 0.5, -0.8)), v(1.0, 0.0, 0.0));
}

#[test]
fn norm_neg_x() {
    assert_eq!(Cube.normal(p(-1.0, -0.2, 0.9)), v(-1.0, 0.0, 0.0));
}

#[test]
fn norm_pos_y() {
    assert_eq!(Cube.normal(p(-0.4, 1.0, -0.1)), v(0.0, 1.0, 0.0));
}

#[test]
fn norm_neg_y() {
    assert_eq!(Cube.normal(p(0.3, -1.0, -0.7)), v(0.0, -1.0, 0.0));
}

#[test]
fn norm_pos_z() {
    assert_eq!(Cube.normal(p(-0.6, 0.3, 1.0)), v(0.0, 0.0, 1.0));
}

#[test]
fn norm_neg_z() {
    assert_eq!(Cube.normal(p(0.4, 0.4, -1.0)), v(0.0, 0.0, -1.0));
}

#[test]
fn norm_pos_corner() {
    assert_eq!(Cube.normal(p(1.0, 1.0, 1.0)), v(1.0, 0.0, 0.0));
}

#[test]
fn norm_neg_corner() {
    assert_eq!(Cube.normal(p(-1.0, -1.0, -1.0)), v(-1.0, 0.0, 0.0));
}

#[test]
fn cube_normal_ties_go_to_the_earlier_axis() {
    assert_eq!(Cube.normal(p(0.2, -1.0, 1.0)), v(0.0, -1.0, 0.0));
    assert_eq!(Cube.normal(p(1.0, 0.2, -1.0)), v(1.0, 0.0, 0.0));
    assert_eq!(Cube.normal(p(-1.0, 1.0, 0.2)), v(-1.0, 0.0, 0.0));
}

#[test]
fn norma() {
    assert_eq!(Plane.normal(p(13.0, 0.0, 11.0)), v(0.0, 1.0, 0.0));
}

#[test]
fn sphere_normal() {
    assert_eq!(Sphere.normal(p(1.0, 0.0, 0.0)), v(1.0, 0.0, 0.0));
    assert_eq!(Sphere.normal(p(0.0, 1.0, 0.0)), v(0.0, 1.0, 0.0));
    assert_eq!(Sphere.normal(p(0.0, 0.0, 1.0)), v(0.0, 0.0, 1.0));
    let rt3over3 = 3f64.sqrt() / 3.0;
    assert_eq!(
        Sphere.normal(p(rt3over3, rt3over3, rt3over3)),
        v(rt3over3, rt3over3, rt3over3)
    );
}

#[test]
fn shape_normal_goes_by_the_shape() {
    let at = p(0.25, -1.0, 0.5);
    assert_eq!(Shape::Sphere.normal(at), v(0.25, -1.0, 0.5));
    assert_eq!(Shape::Plane.normal(at), v(0.0, 1.0, 0.0));
    assert_eq!(Shape::Cube.normal(at), v(0.0, -1.0, 0.0));
}

/// The crossings of the ray from `origin` along `direction` with the unit
/// sphere: the roots of |origin + t * direction|^2 = 1.
fn sphere_crossings(origin: (f64, f64, f64), direction: (f64, f64, f64)) -> Vec<f64> {
    let dot = |a: (f64, f64, f64), b: (f64, f64, f64)| a.0 * b.0 + a.1 * b.1 + a.2 * b.2;
    let a = dot(direction, direction);
    let b = 2.0 * dot(direction, origin);
    let c = dot(origin, origin) - 1.0;
    let discriminant = b * b - 4.0 * a * c;
    let sqrt = discriminant.sqrt();
    let mut xs = Intersections::default();
    Sphere.intersect(
        ObjectIndex::test_value(0),
        s(discriminant),
        s((-b - sqrt) / (a * 2.0)),
        s((-b + sqrt) / (a * 2.0)),
        &mut xs,
    );
    xs.iter().iter().map(|h| f(h.t)).collect()
}

/// The crossings of the ray from `origin` along `direction` with the plane
/// y = 0.
fn plane_crossings(origin: (f64, f64, f64), direction: (f64, f64, f64)) -> Vec<f64> {
    let mut xs = Intersections::default();
    Plane.intersect(ObjectIndex::test_value(0), s(direction.1), s(-origin.1 / direction.1), &mut xs);
    xs.iter().iter().map(|h| f(h.t)).collect()
}

#[test]
fn ray_intersects_sphere() {
    assert_eq!(sphere_crossings((0.0, 0.0, -5.0), (0.0, 0.0, 1.0)), vec![4.0, 6.0]);
}

#[test]
fn ray_intersects_sphere_one_point() {
    assert_eq!(sphere_crossings((0.0, 1.0, -5.0), (0.0, 0.0, 1.0)), vec![5.0, 5.0]);
}

#[test]
fn ray_intersects_sphere_zero_points() {
    assert!(sphere_crossings((0.0, 2.0, -5.0), (0.0, 0.0, 1.0)).is_empty());
}

#[test]
fn ray_origin_in_sphere() {
    assert_eq!(sphere_crossings((0.0, 0.0, 0.0), (0.0, 0.0, 1.0)), vec![-1.0, 1.0]);
}

#[test]
fn sphere_behind_ray() {
    assert_eq!(sphere_crossings((0.0, 0.0, 5.0), (0.0, 0.0, 1.0)), vec![-6.0, -4.0]);
}

#[test]
fn intersect_parallel() {
    assert!(plane_crossings((0.0, 10.0, 0.0), (0.0, 0.0, 1.0)).is_empty());
}

#[test]
fn intersect_coplanar() {
    assert!(plane_crossings((0.0, 0.0, 0.0), (0.0, 0.0, 1.0)).is_empty());
}

#[test]
fn intersect_from_above() {
    assert_eq!(plane_crossings((0.0, 1.0, 0.0), (0.0, -1.0, 0.0)), vec![1.0]);
}

#[test]
fn intersect_from_below() {
    assert_eq!(plane_crossings((0.0, -1.0, 0.0), (0.0, 1.0, 0.0)), vec![1.0]);
}
