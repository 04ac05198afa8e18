use halign::heading::{heading, Heading};
use halign::sign::Sign;
use std::f64::consts::PI;

/// The sign of a number that is taken for zero within a thousandth.
fn sign001(x: f64) -> Sign {
    if x.abs() < 0.001 {
        Sign::Zero
    } else if x < 0.0 {
        Sign::Negative
    } else {
        Sign::Positive
    }
}

/// The heading of a vector in radians, as a caller computes it.
fn angle(vx: f64, vy: f64) -> f64 {
    match heading(sign001(vx), sign001(vy)) {
        Heading::Axis { quarter_turns } => quarter_turns as f64 * PI / 2.0,
        Heading::Oblique { half_turns } => half_turns as f64 * PI + (vy / vx).atan(),
    }
}

#[test]
fn test_heading_on_the_axes() {
    assert_eq!(heading(Sign::Zero, Sign::Zero), Heading::Axis { quarter_turns: 0 });
    assert_eq!(heading(Sign::Positive, Sign::Zero), Heading::Axis { quarter_turns: 0 });
    assert_eq!(heading(Sign::Zero, Sign::Positive), Heading::Axis { quarter_turns: 1 });
    assert_eq!(heading(Sign::Negative, Sign::Zero), Heading::Axis { quarter_turns: 2 });
    assert_eq!(heading(Sign::Zero, Sign::Negative), Heading::Axis { quarter_turns: 3 });
}

#[test]
fn test_heading_in_the_quadrants() {
    assert_eq!(heading(Sign::Positive, Sign::Positive), Heading::Oblique { half_turns: 0 });
    assert_eq!(heading(Sign::Negative, Sign::Positive), Heading::Oblique { half_turns: 1 });
    assert_eq!(heading(Sign::Negative, Sign::Negative), Heading::Oblique { half_turns: 1 });
    assert_eq!(heading(Sign::Positive, Sign::Negative), Heading::Oblique { half_turns: 2 });
}

#[test]
fn vector_test_angle() {
    assert_eq!(true, angle(0.0, 0.0) == 0.0);
    assert_eq!(true, angle(1.0, 0.0) == 0.0);
    assert_eq!(true, angle(-1.0, 0.0) == PI);
    assert_eq!(true, angle(0.0, 1.0) == PI / 2.0);
    assert_eq!(true, angle(0.0, -1.0) == 3.0 * PI / 2.0);
    assert_eq!(true, angle(1.0, 1.0) == PI / 4.0);
    assert_eq!(true, angle(1.0, -1.0) == 2.0 * PI - PI / 4.0);
    assert_eq!(true, angle(-1.0, 1.0) == PI / 2.0 + PI / 4.0);
    assert_eq!(true, angle(-1.0, -1.0) == PI + PI / 4.0);
    assert!((angle(0.15 * 6.0 + 0.10, 1.0) - PI / 4.0).abs() < 0.001);
}

#[test]
fn test_angle_lies_in_the_quadrant_of_the_vector() {
    let values = [-7.5, -1.0, -0.25, 0.25, 1.0, 7.5];
    for vx in values {
        for vy in values {
            let a = angle(vx, vy);
            assert!(0.0 < a && a < 2.0 * PI);
            assert_eq!(a.cos() > 0.0, vx > 0.0);
            assert_eq!(a.sin() > 0.0, vy > 0.0);
        }
    }
}
