use halign::clothoid::{check_clothoid, Turn};
use halign::error::GeometryError;
use halign::sign::Sign;

/// The sign of a number that is taken for zero within a thousandth.
fn sign001(x: f64) -> Sign {
    if x.abs() < 0.001 {
        Sign::Zero
    } else if x < 0.0 {
        Sign::Negative
    } else {
        Sign::Positive
    }
}

fn clothoid(parameter: f64, end_radius: f64) -> Result<Turn, GeometryError> {
    check_clothoid(sign001(parameter), sign001(end_radius))
}

#[test]
fn test_clothoid_accepted() {
    assert_eq!(clothoid(190.0, 450.0), Ok(Turn::Right));
    assert_eq!(clothoid(190.0, -450.0), Ok(Turn::Left));
    assert_eq!(clothoid(150.0, 250.0), Ok(Turn::Right));
    assert_eq!(clothoid(150.0, -250.0), Ok(Turn::Left));
}

#[test]
fn test_clothoid_parameter_zero() {
    assert_eq!(clothoid(0.0, 400.0), Err(GeometryError::InvalidGeometry));
    assert_eq!(clothoid(0.0005, 400.0), Err(GeometryError::InvalidGeometry));
}

#[test]
fn test_clothoid_parameter_negative() {
    assert_eq!(clothoid(-1000.0, 400.0), Err(GeometryError::InvalidGeometry));
    assert_eq!(clothoid(-1000.0, -400.0), Err(GeometryError::InvalidGeometry));
}

#[test]
fn test_clothoid_end_radius_zero() {
    assert_eq!(clothoid(1000.0, 0.0), Err(GeometryError::InvalidGeometry));
    assert_eq!(clothoid(1000.0, -0.0009), Err(GeometryError::InvalidGeometry));
    assert_eq!(clothoid(0.0, 0.0), Err(GeometryError::InvalidGeometry));
}

#[test]
fn test_check_clothoid_table() {
    let signs = [Sign::Negative, Sign::Zero, Sign::Positive];
    for parameter in signs {
        for end_radius in signs {
            let expected = if parameter == Sign::Positive && end_radius == Sign::Positive {
                Ok(Turn::Right)
            } else if parameter == Sign::Positive && end_radius == Sign::Negative {
                Ok(Turn::Left)
            } else {
                Err(GeometryError::InvalidGeometry)
            };
            assert_eq!(check_clothoid(parameter, end_radius), expected);
        }
    }
}

#[test]
fn test_turn_of_radius() {
    assert_eq!(Turn::of_radius(Sign::Positive), Some(Turn::Right));
    assert_eq!(Turn::of_radius(Sign::Negative), Some(Turn::Left));
    assert_eq!(Turn::of_radius(Sign::Zero), None);
}

#[test]
fn test_turn_opposite() {
    assert_eq!(Turn::Left.opposite(), Turn::Right);
    assert_eq!(Turn::Right.opposite(), Turn::Left);
}

#[test]
fn test_signs_of_a_turn() {
    // A positive radius turns to the right: the local deflection angle and
    // the local ordinate are negative.
    assert_eq!(Turn::Right.deflection_sign(), Sign::Negative);
    assert_eq!(Turn::Left.deflection_sign(), Sign::Positive);
}

#[test]
fn test_negated_radius_negates_the_signs() {
    for radius in [-450.0, 450.0, -250.0, 250.0] {
        let turn = clothoid(190.0, radius).unwrap();
        let mirrored = clothoid(190.0, -radius).unwrap();
        assert_eq!(mirrored, turn.opposite());
        assert_ne!(mirrored.deflection_sign(), turn.deflection_sign());
    }
}
