use ray_tracer_challenge::spaces;
use ray_tracer_challenge::{Mat, Scalar};

fn s(v: f64) -> Scalar {
    Scalar::from_bits(v.to_bits())
}

fn f(v: Scalar) -> f64 {
    f64::from_bits(v.to_bits())
}

fn mat2(v: [[f64; 2]; 2]) -> Mat<2, spaces::World, spaces::World> {
    Mat::new(v.map(|row| row.map(s)))
}

fn mat3(v: [[f64; 3]; 3]) -> Mat<3, spaces::World, spaces::World> {
    Mat::new(v.map(|row| row.map(s)))
}

fn mat4(v: [[f64; 4]; 4]) -> Mat<4, spaces::World, spaces::World> {
    Mat::new(v.map(|row| row.map(s)))
}

#[test]
fn test_4x4() {
    let mat = mat4([
        [1.0, 2.0, 3.0, 4.0],
        [5.5, 6.5, 7.5, 8.5],
        [9.0, 10.0, 11.0, 12.0],
        [13.5, 14.5, 15.5, 16.5],
    ]);

    assert_eq!(f(mat.get(0, 0)), 1.0);
    assert_eq!(f(mat.get(0, 3)), 4.0);
    assert_eq!(f(mat.get(1, 0)), 5.5);
    assert_eq!(f(mat.get(1, 2)), 7.5);
    assert_eq!(f(mat.get(2, 2)), 11.0);
    assert_eq!(f(mat.get(3, 0)), 13.5);
    assert_eq!(f(mat.get(3, 2)), 15.5);
}

#[test]
fn test_2x2() {
    let mat = mat2([[-3.0, 5.0], [1.0, -2.0]]);

    assert_eq!(f(mat.get(0, 0)), -3.0);
    assert_eq!(f(mat.get(0, 1)), 5.0);
    assert_eq!(f(mat.get(1, 0)), 1.0);
    assert_eq!(f(mat.get(1, 1)), -2.0);
}

#[test]
fn test_3x3() {
    let mat = mat3([[-3.0, 5.0, 0.0], [1.0, -2.0, -7.0], [0.0, 1.0, 1.0]]);

    assert_eq!(f(mat.get(0, 0)), -3.0);
    assert_eq!(f(mat.get(1, 1)), -2.0);
    assert_eq!(f(mat.get(2, 2)), 1.0);
}

#[test]
fn equality_ne() {
    let a = mat4([
        [1.0, 2.0, 3.0, 4.0],
        [5.0, 6.0, 7.0, 8.0],
        [13.0, 14.0, 15.0, 16.0],
        [17.0, 18.0, 19.0, 20.0],
    ]);
    let b = mat4([
        [5.0, 6.0, 7.0, 8.0],
        [1.0, 2.0, 3.0, 4.0],
        [17.0, 18.0, 19.0, 20.0],
        [13.0, 14.0, 15.0, 16.0],
    ]);
    assert_ne!(a, b);
}

#[test]
fn equality_eq() {
    let a = mat4([
        [1.0, 2.0, 3.0, 4.0],
        [5.0, 6.0, 7.0, 8.0],
        [13.0, 14.0, 15.0, 16.0],
        [17.0, 18.0, 19.0, 20.0],
    ]);
    let b = mat4([
        [1.0, 2.0, 3.0, 4.0],
        [5.0, 6.0, 7.0, 8.0],
        [13.0, 14.0, 15.0, 16.0],
        [17.0, 18.0, 19.0, 20.0],
    ]);
    assert_eq!(a, b);
}

#[test]
fn mat_transpose_4x4() {
    let a = mat4([
        [1.0, 2.0, 3.0, 4.0],
        [5.0, 6.0, 7.0, 8.0],
        [9.0, 8.0, 7.0, 6.0],
        [5.0, 4.0, 3.0, 2.0],
    ]);
    let b = mat4([
        [1.0, 5.0, 9.0, 5.0],
        [2.0, 6.0, 8.0, 4.0],
        [3.0, 7.0, 7.0, 3.0],
        [4.0, 8.0, 6.0, 2.0],
    ]);
    assert_eq!(a.transpose(), b);
    assert_eq!(b.transpose(), a);
}

#[test]
fn mat_transpose_2x2() {
    let a = mat2([[1.0, 2.0], [5.0, 6.0]]);
    let b = mat2([[1.0, 5.0], [2.0, 6.0]]);
    assert_eq!(a.transpose(), b);
    assert_eq!(b.transpose(), a);
}

#[test]
fn mat_transpose_ident() {
    assert_eq!(
        Mat::<1, spaces::World, spaces::World>::identity().transpose(),
        Mat::identity()
    );
    assert_eq!(
        Mat::<2, spaces::World, spaces::World>::identity().transpose(),
        Mat::identity()
    );
    assert_eq!(
        Mat::<3, spaces::World, spaces::World>::identity().transpose(),
        Mat::identity()
    );
    assert_eq!(
        Mat::<4, spaces::World, spaces::World>::identity().transpose(),
        Mat::identity()
    );
}

#[test]
fn submat_3x3() {
    let a = mat3([[1.0, 5.0, 0.0], [-3.0, 2.0, 7.0], [0.0, 6.0, -3.0]]);
    let res = mat2([[-3.0, 2.0], [0.0, 6.0]]);
    assert_eq!(a.submatrix(0, 2), res);
}

#[test]
fn submat_4x4() {
    let a = mat4([
        [1.0, 2.0, 3.0, 4.0],
        [5.0, 6.0, 7.0, 8.0],
        [9.0, 8.0, 7.0, 6.0],
        [5.0, 4.0, 3.0, 2.0],
    ]);
    let res = mat3([[1.0, 3.0, 4.0], [5.0, 7.0, 8.0], [5.0, 3.0, 2.0]]);
    assert_eq!(a.submatrix(2, 1), res);
}

#[test]
fn submatrix_at_the_corners() {
    let a = mat3([[1.0, 2.0, 3.0], [4.0, 5.0, 6.0], [7.0, 8.0, 9.0]]);
    assert_eq!(a.submatrix(0, 0), mat2([[5.0, 6.0], [8.0, 9.0]]));
    assert_eq!(a.submatrix(2, 2), mat2([[1.0, 2.0], [4.0, 5.0]]));
    assert_eq!(a.submatrix(1, 1), mat2([[1.0, 3.0], [7.0, 9.0]]));
}

#[test]
fn identity_has_ones_on_the_diagonal() {
    let m: Mat<4, spaces::World, spaces::Object> = Mat::identity();
    for r in 0..4 {
        for c in 0..4 {
            let want: f64 = if r == c { 1.0 } else { 0.0 };
            assert_eq!(m.get(r, c).to_bits(), want.to_bits());
        }
    }
}

#[test]
fn default_is_all_zero() {
    let m: Mat<3, spaces::World, spaces::Object> = Mat::default();
    for r in 0..3 {
        for c in 0..3 {
            assert_eq!(m.get(r, c).to_bits(), 0);
        }
    }
    assert_eq!(Mat::<3, spaces::World, spaces::Object>::zeroed(), m);
}

#[test]
fn set_changes_one_entry() {
    let mut m = mat3([[1.0, 2.0, 3.0], [4.0, 5.0, 6.0], [7.0, 8.0, 9.0]]);
    m.set(1, 2, s(-6.5));
    assert_eq!(m, mat3([[1.0, 2.0, 3.0], [4.0, 5.0, -6.5], [7.0, 8.0, 9.0]]));
}

#[test]
fn transpose_twice_gives_the_matrix_back() {
    let a = mat3([[1.0, 2.0, 3.0], [4.0, 5.0, 6.0], [7.0, 8.0, 9.0]]);
    assert_eq!(a.transpose().transpose(), a);
}
