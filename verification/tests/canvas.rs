use ray_tracer_challenge::colors::to_byte;
use ray_tracer_challenge::{Canvas, Color, Scalar};

fn s(v: f64) -> Scalar {
    Scalar::from_bits(v.to_bits())
}

fn color(r: f64, g: f64, b: f64) -> Color {
    Color::new(s(r), s(g), s(b))
}

/// The byte that arithmetic on the number itself gives.
fn reference_byte(v: f64) -> u8 {
    if v < 0.0 {
        0
    } else if v >= 1.0 {
        255
    } else {
        (v * 256.0) as u8
    }
}

#[test]
fn creating() {
    let c = Canvas::new(10, 20);
    assert_eq!(c.width(), 10);
    assert_eq!(c.height(), 20);
    for x in 0..10 {
        for y in 0..20 {
            assert_eq!(c.get(x, y), Color::default());
        }
    }
}

#[test]
fn writing() {
    let mut c = Canvas::new(10, 20);
    c.set(2, 3, color(1.0, 0.0, 0.0));
    assert_eq!(c.get(2, 3), color(1.0, 0.0, 0.0));
    assert_eq!(c.get(3, 2), Color::black());
    assert_eq!(c.get(1, 3), Color::black());
}

#[test]
fn write_ppm() {
    let mut c = Canvas::new(5, 3);
    c.set(0, 0, color(1.5, 0.0, 0.0));
    c.set(2, 1, color(0.0, 0.5, 0.0));
    c.set(4, 2, color(-0.5, 0.0, 1.0));

    let ppm = c.write_ppm();

    let mut exp = String::new();
    exp.push_str("P3\n");
    exp.push_str("5 3\n");
    exp.push_str("255\n");
    exp.push_str("255 0 0 0 0 0 0 0 0 0 0 0 0 0 0\n");
    exp.push_str("0 0 0 0 0 0 0 128 0 0 0 0 0 0 0\n");
    exp.push_str("0 0 0 0 0 0 0 0 0 0 0 0 0 0 255\n");

    assert_eq!(String::from_utf8(ppm).unwrap(), exp);
}

#[test]
fn write_wide_ppm() {
    let mut c = Canvas::new(10, 2);
    for x in 0..c.width() {
        for y in 0..c.height() {
            c.set(x, y, color(1.0, 0.8, 0.6));
        }
    }

    let ppm = c.write_ppm();

    let mut exp = String::new();
    exp.push_str("P3\n");
    exp.push_str("10 2\n");
    exp.push_str("255\n");
    exp.push_str("255 204 153 255 204 153 255 204 153 255 204 153 255 204 153 255 204\n");
    exp.push_str("153 255 204 153 255 204 153 255 204 153 255 204 153\n");
    exp.push_str("255 204 153 255 204 153 255 204 153 255 204 153 255 204 153 255 204\n");
    exp.push_str("153 255 204 153 255 204 153 255 204 153 255 204 153\n");

    assert_eq!(String::from_utf8(ppm).unwrap(), exp);
}

#[test]
fn empty_canvases() {
    assert_eq!(String::from_utf8(Canvas::new(0, 0).write_ppm()).unwrap(), "P3\n0 0\n255\n");
    assert_eq!(String::from_utf8(Canvas::new(3, 0).write_ppm()).unwrap(), "P3\n3 0\n255\n");
    assert_eq!(String::from_utf8(Canvas::new(0, 2).write_ppm()).unwrap(), "P3\n0 2\n255\n\n\n");
}

#[test]
fn ppm_numerals_of_every_length() {
    let mut c = Canvas::new(2, 1);
    c.set(0, 0, color(0.03, 0.04, 0.39));
    c.set(1, 0, color(0.391, 0.5, 0.999));
    assert_eq!(
        String::from_utf8(c.write_ppm()).unwrap(),
        "P3\n2 1\n255\n7 10 99 100 128 255\n"
    );
}

#[test]
fn a_line_is_broken_where_it_is_reckoned_too_long() {
    // 24 samples of 100: each is reckoned as two characters and a blank
    let mut c = Canvas::new(8, 1);
    for x in 0..8 {
        c.set(x, 0, color(0.391, 0.391, 0.391));
    }
    let text = String::from_utf8(c.write_ppm()).unwrap();
    let lines: Vec<&str> = text.lines().skip(3).collect();
    assert_eq!(lines.len(), 2);
    assert_eq!(lines[0], vec!["100"; 23].join(" "));
    assert_eq!(lines[1], "100");
    let samples: Vec<&str> = text.split_whitespace().skip(4).collect();
    assert_eq!(samples, vec!["100"; 24]);
}

#[test]
fn bytes_agree_with_the_numbers() {
    let mut v = 0.0f64;
    while v < 1.01 {
        assert_eq!(to_byte(s(v)), reference_byte(v), "{v}");
        assert_eq!(to_byte(s(-v)), 0, "-{v}");
        v += 0.000_37;
    }
    for k in 0..=256 {
        let edge = k as f64 / 256.0;
        for v in [edge, f64::from_bits(edge.to_bits().wrapping_sub(1)), f64::from_bits(edge.to_bits() + 1)] {
            if v.is_nan() {
                continue;
            }
            assert_eq!(to_byte(s(v)), reference_byte(v), "{v:e}");
        }
    }
    for v in [
        5e-324,
        f64::MIN_POSITIVE,
        1e-300,
        0.00390624,
        0.00390625,
        0.5,
        0.999_999_999_999_999_9,
        1.0,
        2.0,
        f64::MAX,
        f64::INFINITY,
        f64::NEG_INFINITY,
        f64::NAN,
        -0.0,
    ] {
        assert_eq!(to_byte(s(v)), reference_byte(v), "{v:e}");
    }
}

#[test]
fn byte_examples() {
    assert_eq!(to_byte(s(0.0)), 0);
    assert_eq!(to_byte(s(0.5)), 128);
    assert_eq!(to_byte(s(0.8)), 204);
    assert_eq!(to_byte(s(0.6)), 153);
    assert_eq!(to_byte(s(1.0)), 255);
    assert_eq!(to_byte(s(1.5)), 255);
    assert_eq!(to_byte(s(-0.5)), 0);
    assert_eq!(to_byte(s(1.0 / 256.0)), 1);
    assert_eq!(to_byte(s(255.0 / 256.0)), 255);
    assert_eq!(to_byte(s(254.999 / 256.0)), 254);
}

#[test]
fn colors_for_display() {
    let c = color(1.0, 0.8, 0.6);
    assert_eq!(c.to_bytes(), [255, 204, 153]);
    assert_eq!(c.to_u32(), 0x00FF_CC99);
    assert_eq!(Color::black().to_u32(), 0);
    assert_eq!(Color::white().to_u32(), 0x00FF_FFFF);
    assert_eq!(color(-1.0, 0.5, 7.0).to_u32(), 0x0000_80FF);
}
