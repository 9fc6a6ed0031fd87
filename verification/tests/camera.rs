use ray_tracer_challenge::spaces;
use ray_tracer_challenge::{Camera, Mat, PixelIterator, Scalar};

fn s(v: f64) -> Scalar {
    Scalar::from_bits(v.to_bits())
}

fn camera(hsize: u32, vsize: u32, oversample: u32) -> Camera {
    let t: Mat<4, spaces::Camera, spaces::World> = Mat::identity();
    Camera::new(hsize, vsize, t, s(1.0), s(0.5), s(0.01), oversample)
}

fn f(v: Scalar) -> f64 {
    f64::from_bits(v.to_bits())
}

/// The camera at the origin that looks down -z with the field of view
/// `fov`: its measures follow from the size of the image.
fn looking_down_z(hsize: u32, vsize: u32, fov: f64, oversample: u32) -> Camera {
    let half_view = (fov / 2.0).tan();
    let aspect = hsize as f64 / vsize as f64;
    let (half_width, half_height) = if aspect >= 1.0 {
        (half_view, half_view / aspect)
    } else {
        (half_view * aspect, half_view)
    };
    let pixel_size = half_width * 2.0 / hsize as f64;
    Camera::new(hsize, vsize, Mat::identity(), s(half_width), s(half_height), s(pixel_size), oversample)
}

fn close(a: f64, b: f64) -> bool {
    (a - b).abs() <= f64::EPSILON * a.abs().max(b.abs())
}

#[test]
fn camera_constr() {
    let cam = looking_down_z(160, 120, std::f64::consts::PI / 2.0, 1);
    assert_eq!(cam.hsize, 160);
    assert_eq!(cam.vsize, 120);
    assert_eq!(cam.inv_transform, Mat::identity());
}

#[test]
fn camera_pixel_size_h() {
    let cam = looking_down_z(200, 125, std::f64::consts::PI / 2.0, 1);
    assert!(close(f(cam.pixel_size), 0.01));
}

#[test]
fn camera_pixel_size_v() {
    let cam = looking_down_z(125, 200, std::f64::consts::PI / 2.0, 1);
    assert!(close(f(cam.pixel_size), 0.01));
}

fn walk(mut it: PixelIterator) -> Vec<(u32, u32)> {
    let mut out = Vec::new();
    while let Some(p) = it.next() {
        out.push(p);
    }
    assert_eq!(it.next(), None);
    out
}

#[test]
fn new_keeps_the_measures() {
    let c = camera(200, 125, 3);
    assert_eq!((c.hsize, c.vsize, c.oversample), (200, 125, 3));
    assert_eq!(c.pixel_size.to_bits(), 0.01f64.to_bits());
    assert_eq!(c.half_width.to_bits(), 1.0f64.to_bits());
    assert_eq!(c.half_height.to_bits(), 0.5f64.to_bits());
    assert_eq!(c.inv_transform, Mat::identity());
}

#[test]
fn pixels_go_row_by_row() {
    let got = walk(camera(3, 2, 1).pixels());
    assert_eq!(got, vec![(0, 0), (1, 0), (2, 0), (0, 1), (1, 1), (2, 1)]);
}

#[test]
fn pixel_k_is_k_mod_width_and_k_div_width() {
    let got = walk(camera(7, 5, 1).pixels());
    assert_eq!(got.len(), 35);
    for (k, (x, y)) in got.iter().enumerate() {
        assert_eq!((*x as usize, *y as usize), (k % 7, k / 7));
    }
}

#[test]
fn an_image_without_rows_has_no_pixels() {
    assert!(walk(camera(4, 0, 1).pixels()).is_empty());
    assert!(walk(camera(0, 0, 1).pixels()).is_empty());
}

#[test]
fn an_image_without_columns_is_walked_as_one_column() {
    assert_eq!(walk(camera(0, 3, 1).pixels()), vec![(0, 0), (0, 1), (0, 2)]);
}

#[test]
fn offsets_fill_the_buffer_without_gaps() {
    let c = camera(5, 4, 1);
    let mut seen = vec![false; 20];
    for (x, y) in walk(c.pixels()) {
        let i = c.offset(x, y);
        assert_eq!(i, (y * 5 + x) as usize);
        assert!(!seen[i]);
        seen[i] = true;
    }
    assert!(seen.iter().all(|b| *b));
    assert_eq!(c.offset(4, 3), 19);
}

#[test]
fn samples_per_pixel_is_the_square() {
    assert_eq!(camera(1, 1, 1).samples_per_pixel(), 1);
    assert_eq!(camera(1, 1, 3).samples_per_pixel(), 9);
    assert_eq!(camera(1, 1, 0).samples_per_pixel(), 0);
    assert_eq!(camera(1, 1, u32::MAX).samples_per_pixel(), 18446744065119617025);
}
