use halign::clothoid::Turn;
use halign::error::GeometryError;
use halign::section::{
    center_side, check_arc, check_arc_length, check_tangent, check_transition, radial_side,
    Placement, Side,
};
use halign::sign::Sign;

const SIGNS: [Sign; 3] = [Sign::Negative, Sign::Zero, Sign::Positive];

/// The sign of a number that is taken for zero within a thousandth.
fn sign001(x: f64) -> Sign {
    if x.abs() < 0.001 {
        Sign::Zero
    } else if x < 0.0 {
        Sign::Negative
    } else {
        Sign::Positive
    }
}

fn eq001(x: f64, y: f64) -> bool {
    (x - y).abs() < 0.001
}

/// The exact sign of a number.
fn sign(x: f64) -> Sign {
    if x < 0.0 {
        Sign::Negative
    } else if x > 0.0 {
        Sign::Positive
    } else {
        Sign::Zero
    }
}

#[test]
fn test_tangent_accepted() {
    assert_eq!(check_tangent(sign001(100.0)), Ok(()));
    assert_eq!(check_tangent(sign001(1.0)), Ok(()));
}

#[test]
fn test_tangent_length_negative() {
    assert_eq!(check_tangent(sign001(-100.0)), Err(GeometryError::InvalidGeometry));
}

#[test]
fn test_tangent_length_zero() {
    assert_eq!(check_tangent(sign001(0.0)), Err(GeometryError::InvalidGeometry));
    assert_eq!(check_tangent(sign001(0.0001)), Err(GeometryError::InvalidGeometry));
}

#[test]
fn test_arc_accepted() {
    assert_eq!(check_arc(sign001(400.0), sign(100.0)), Ok(Turn::Right));
    assert_eq!(check_arc(sign001(-400.0), sign(100.0)), Ok(Turn::Left));
    assert_eq!(check_arc(sign001(400.0), sign(0.0)), Ok(Turn::Right));
}

#[test]
fn test_arc_radius_zero() {
    assert_eq!(check_arc(sign001(0.0), sign(100.0)), Err(GeometryError::InvalidGeometry));
}

#[test]
fn test_arc_length_negative() {
    assert_eq!(check_arc(sign001(100.0), sign(-100.0)), Err(GeometryError::InvalidGeometry));
    assert_eq!(check_arc(sign001(-100.0), sign(-0.0001)), Err(GeometryError::InvalidGeometry));
}

#[test]
fn test_check_arc_table() {
    for radius in SIGNS {
        for length in SIGNS {
            let expected = if radius == Sign::Zero || length == Sign::Negative {
                Err(GeometryError::InvalidGeometry)
            } else if radius == Sign::Positive {
                Ok(Turn::Right)
            } else {
                Ok(Turn::Left)
            };
            assert_eq!(check_arc(radius, length), expected);
        }
    }
}

fn transition(start_radius: f64, end_radius: f64, length: f64) -> Result<Placement, GeometryError> {
    check_transition(sign001(start_radius), sign001(end_radius), sign001(length))
}

#[test]
fn test_transition_direct() {
    assert_eq!(transition(0.0, 450.0, 80.222), Ok(Placement::Direct));
    assert_eq!(transition(0.0, -450.0, 80.222), Ok(Placement::Direct));
    assert_eq!(transition(0.0, -800.0, 112.5), Ok(Placement::Direct));
}

#[test]
fn test_transition_inverse() {
    assert_eq!(transition(450.0, 0.0, 80.222), Ok(Placement::Inverse));
    assert_eq!(transition(-450.0, 0.0, 80.222), Ok(Placement::Inverse));
}

#[test]
fn test_transition_both_radii_zero() {
    assert_eq!(transition(0.0, 0.0, 80.22), Err(GeometryError::InvalidGeometry));
}

#[test]
fn test_transition_both_radii_not_zero() {
    assert_eq!(transition(-400.0, 400.0, 0.0), Err(GeometryError::InvalidGeometry));
    assert_eq!(transition(-400.0, 400.0, 80.22), Err(GeometryError::InvalidGeometry));
    assert_eq!(transition(450.0, 450.0, 80.22), Err(GeometryError::InvalidGeometry));
}

#[test]
fn test_transition_length_zero() {
    assert_eq!(transition(0.0, 400.0, 0.0), Err(GeometryError::InvalidGeometry));
    assert_eq!(transition(400.0, 0.0, 0.0), Err(GeometryError::InvalidGeometry));
}

#[test]
fn test_check_transition_table() {
    for start in SIGNS {
        for end in SIGNS {
            for length in SIGNS {
                let expected = if length == Sign::Zero {
                    Err(GeometryError::InvalidGeometry)
                } else if start == Sign::Zero && end != Sign::Zero {
                    Ok(Placement::Direct)
                } else if start != Sign::Zero && end == Sign::Zero {
                    Ok(Placement::Inverse)
                } else {
                    Err(GeometryError::InvalidGeometry)
                };
                assert_eq!(check_transition(start, end, length), expected);
            }
        }
    }
}

#[test]
fn test_radius_in_tangent_to_circle_point() {
    let length = 80.22;
    let start_radius = 0.0;
    let end_radius = -450.0;
    let placement = transition(start_radius, end_radius, length).unwrap();
    assert!(eq001(end_radius, placement.circle_radius(start_radius, end_radius)));
    let end_radius = 450.0;
    let placement = transition(start_radius, end_radius, length).unwrap();
    assert!(eq001(end_radius, placement.circle_radius(start_radius, end_radius)));
    let start_radius = 450.0;
    let end_radius = 0.0;
    let placement = transition(start_radius, end_radius, length).unwrap();
    assert!(eq001(start_radius, placement.circle_radius(start_radius, end_radius)));
    let start_radius = -450.0;
    let placement = transition(start_radius, end_radius, length).unwrap();
    assert!(eq001(start_radius, placement.circle_radius(start_radius, end_radius)));
}

/// The turn of the canonical clothoid of a transition with the given radii.
fn clothoid_turn(start_radius: f64, end_radius: f64, length: f64) -> Turn {
    let placement = transition(start_radius, end_radius, length).unwrap();
    let radius = placement.circle_radius(start_radius, end_radius);
    placement.clothoid_turn(Turn::of_radius(sign001(radius)).unwrap())
}

#[test]
fn test_clothoid() {
    // Placed directly, the clothoid turns as the circle does: its end radius
    // has the sign of the circle's. Placed inversely it turns the other way.
    assert_eq!(clothoid_turn(0.0, 450.0, 80.222), Turn::Right);
    assert_eq!(clothoid_turn(0.0, -450.0, 80.222), Turn::Left);
    assert_eq!(clothoid_turn(450.0, 0.0, 80.222), Turn::Left);
    assert_eq!(clothoid_turn(-450.0, 0.0, 80.222), Turn::Right);
}

#[test]
fn test_placement_picks_the_circle_radius() {
    assert_eq!(Placement::Direct.circle_radius(0.0, 450.0), 450.0);
    assert_eq!(Placement::Direct.circle_radius(0.0, -450.0), -450.0);
    assert_eq!(Placement::Inverse.circle_radius(450.0, 0.0), 450.0);
    assert_eq!(Placement::Inverse.circle_radius(-800.0, 0.0), -800.0);
}

#[test]
fn test_placement_clothoid_turn() {
    assert_eq!(Placement::Direct.clothoid_turn(Turn::Right), Turn::Right);
    assert_eq!(Placement::Direct.clothoid_turn(Turn::Left), Turn::Left);
    assert_eq!(Placement::Inverse.clothoid_turn(Turn::Right), Turn::Left);
    assert_eq!(Placement::Inverse.clothoid_turn(Turn::Left), Turn::Right);
}

fn arc_length(s: f64, limit: f64) -> Result<(), GeometryError> {
    let excess = if s > limit {
        Sign::Positive
    } else if s < limit {
        Sign::Negative
    } else {
        Sign::Zero
    };
    check_arc_length(sign(s), excess)
}

#[test]
fn test_arc_length_on_the_section() {
    assert_eq!(arc_length(0.0, 10.0), Ok(()));
    assert_eq!(arc_length(5.0, 10.0), Ok(()));
    assert_eq!(arc_length(10.0, 10.0), Ok(()));
}

#[test]
fn test_arc_length_beyond_the_end() {
    assert_eq!(arc_length(15.0, 10.0), Err(GeometryError::OutOfRange));
}

#[test]
fn test_arc_length_before_the_start() {
    assert_eq!(arc_length(-5.0, 10.0), Err(GeometryError::OutOfRange));
    assert_eq!(arc_length(-100.0, 2.0 * std::f64::consts::PI * 400.0), Err(GeometryError::OutOfRange));
}

#[test]
fn test_arc_length_beyond_the_full_circle() {
    let full_circle = 2.0 * std::f64::consts::PI * 400.0;
    assert_eq!(
        arc_length(2.01 * std::f64::consts::PI * 400.0, full_circle),
        Err(GeometryError::OutOfRange)
    );
    assert_eq!(arc_length(std::f64::consts::PI * 400.0 / 2.0, full_circle), Ok(()));
    assert_eq!(arc_length(full_circle, full_circle), Ok(()));
}

#[test]
fn test_check_arc_length_table() {
    for s in SIGNS {
        for excess in SIGNS {
            let expected = if s == Sign::Negative || excess == Sign::Positive {
                Err(GeometryError::OutOfRange)
            } else {
                Ok(())
            };
            assert_eq!(check_arc_length(s, excess), expected);
        }
    }
}

#[test]
fn test_center_side() {
    assert_eq!(center_side(Turn::Right), Side::Right);
    assert_eq!(center_side(Turn::Left), Side::Left);
}

#[test]
fn test_radial_side() {
    assert_eq!(radial_side(Turn::Right), Side::Left);
    assert_eq!(radial_side(Turn::Left), Side::Right);
    assert_ne!(radial_side(Turn::Left), center_side(Turn::Left));
    assert_ne!(radial_side(Turn::Right), center_side(Turn::Right));
}
