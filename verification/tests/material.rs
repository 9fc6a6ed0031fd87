use ray_tracer_challenge::spaces;
use ray_tracer_challenge::{Color, Mat, Material, Pattern, PatternImpl, Scalar, Secondary};

fn s(v: f64) -> Scalar {
    Scalar::from_bits(v.to_bits())
}

fn f(v: Scalar) -> f64 {
    f64::from_bits(v.to_bits())
}

#[test]
fn default_material() {
    let m = Material::default();
    assert_eq!(f(m.ambient), 0.1);
    assert_eq!(f(m.diffuse), 0.9);
    assert_eq!(f(m.specular), 0.9);
    assert_eq!(f(m.shininess), 200.0);
    assert_eq!(f(m.reflectivity), 0.0);
    assert_eq!(f(m.transparency), 0.0);
    assert_eq!(f(m.refractive_index), 1.0);
    assert_eq!(m.pattern.pattern_impl, PatternImpl::Solid(Color::white()));
    assert_eq!(m.pattern.transform, Mat::identity());
    assert_eq!(m.secondary(), Secondary::Neither);
}

#[test]
fn builders_change_one_property() {
    let base = Material::default();
    let m = base.with_ambient(s(13.0));
    assert_eq!(f(m.ambient), 13.0);
    assert_eq!(m.with_ambient(s(0.1)), base);

    let m = base.with_diffuse(s(0.7));
    assert_eq!(f(m.diffuse), 0.7);
    assert_eq!(m.with_diffuse(s(0.9)), base);

    let m = base.with_specular(s(0.2));
    assert_eq!(f(m.specular), 0.2);
    assert_eq!(m.with_specular(s(0.9)), base);

    let m = base.with_shininess(s(10.0));
    assert_eq!(f(m.shininess), 10.0);
    assert_eq!(m.with_shininess(s(200.0)), base);

    let m = base.with_reflectivity(s(0.5));
    assert_eq!(f(m.reflectivity), 0.5);
    assert_eq!(m.with_reflectivity(s(0.0)), base);

    let m = base.with_transparency(s(0.75), s(1.5));
    assert_eq!(f(m.transparency), 0.75);
    assert_eq!(f(m.refractive_index), 1.5);
    assert_eq!(m.with_transparency(s(0.0), s(1.0)), base);
}

#[test]
fn color_and_pattern() {
    let c = Color::new(s(0.8), s(1.0), s(0.6));
    let m = Material::default().with_color(c);
    assert_eq!(m.pattern, Pattern::solid(c));
    let stripes = Pattern::stripe(Color::white(), Color::black());
    let m = m.with_pattern(stripes);
    assert_eq!(m.pattern, stripes);
    assert_eq!(f(m.ambient), 0.1);
}

#[test]
fn secondary_rays() {
    let base = Material::default();
    assert_eq!(base.secondary(), Secondary::Neither);
    assert_eq!(base.with_reflectivity(s(0.5)).secondary(), Secondary::Reflected);
    assert_eq!(base.with_transparency(s(0.5), s(1.5)).secondary(), Secondary::Refracted);
    assert_eq!(
        base.with_reflectivity(s(1.0)).with_transparency(s(0.9), s(1.5)).secondary(),
        Secondary::Both
    );
}

#[test]
fn no_reflectivity_asks_for_no_mirrored_ray() {
    for index in [1.0, 1.5, 2.5] {
        for transparency in [0.0, 0.25, 0.9] {
            let m = Material::default()
                .with_reflectivity(s(0.0))
                .with_transparency(s(transparency), s(index));
            assert!(!m.reflects());
            assert!(matches!(m.secondary(), Secondary::Neither | Secondary::Refracted));
        }
    }
    // the other zero, and what is not a number, ask for none either
    assert!(!Material::default().with_reflectivity(s(-0.0)).reflects());
    assert!(!Material::default().with_reflectivity(s(f64::NAN)).reflects());
    assert!(Material::default().with_reflectivity(s(5e-324)).reflects());
}

#[test]
fn refracts_above_zero_only() {
    assert!(!Material::default().refracts());
    assert!(!Material::default().with_transparency(s(-0.5), s(1.0)).refracts());
    assert!(Material::default().with_transparency(s(0.001), s(1.0)).refracts());
}

#[test]
fn patterns() {
    let a = Color::new(s(1.0), s(0.0), s(0.0));
    let b = Color::new(s(0.0), s(0.0), s(1.0));
    assert_eq!(Pattern::solid(a).pattern_impl, PatternImpl::Solid(a));
    assert_eq!(Pattern::stripe(a, b).pattern_impl, PatternImpl::Stripe(a, b));
    assert_eq!(Pattern::gradient(a, b).pattern_impl, PatternImpl::Gradient(a, b));
    assert_eq!(Pattern::checker(a, b).pattern_impl, PatternImpl::Checker(a, b));
    assert_eq!(Pattern::ring(a, b).pattern_impl, PatternImpl::Ring(a, b));
    assert_eq!(Pattern::ring(a, b).transform, Mat::identity());
    assert_eq!(Pattern::solid(a).solid_color(), Some(a));
    assert_eq!(Pattern::ring(a, b).solid_color(), None);

    let mut t: Mat<4, spaces::Object, spaces::Pattern> = Mat::identity();
    t.set(0, 0, s(0.5));
    let p = Pattern::stripe(a, b).with_transform(t);
    assert_eq!(p.transform, t);
    assert_eq!(p.pattern_impl, PatternImpl::Stripe(a, b));
}

#[test]
fn indices_on_the_two_sides() {
    let glass = Material::default().with_transparency(s(0.9), s(1.5));
    let water = Material::default().with_transparency(s(0.9), s(1.33));
    let (n1, n2) = glass.indices(None);
    assert_eq!((f(n1), f(n2)), (1.0, 1.5));
    let (n1, n2) = glass.indices(Some(&water));
    assert_eq!((f(n1), f(n2)), (1.33, 1.5));
}
