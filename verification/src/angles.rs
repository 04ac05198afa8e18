//! Azimuths and angles over the real numbers.
//!
//! An azimuth is a heading in degrees, measured from north, clockwise, in
//! `[0, 360)`. An angle is a heading in radians, measured from east,
//! counter-clockwise, in `[0, 2 * PI)`. The functions here say how the two
//! are normalised and converted into each other. Each of them takes the
//! value of `pi` as an argument; the laws hold for every positive value of
//! it.

use vstd::prelude::*;
use crate::sign::abs;

verus! {

/// The whole number next to `x` towards zero.
pub open spec fn truncate(x: real) -> int {
    if x >= 0real {
        x.floor()
    } else {
        -((-x).floor())
    }
}

/// The remainder of the division of `x` by `modulus` with a whole quotient
/// that is rounded towards zero. It has the sign of `x`.
pub open spec fn remainder(x: real, modulus: real) -> real {
    x - modulus * (truncate(x / modulus) as real)
}

/// An angle brought into one turn of `turn` units, zero included and the
/// full turn excluded: from one turn on in either direction it is replaced
/// by its remainder, and a negative angle is then raised by one turn.
pub open spec fn normalize(value: real, turn: real) -> real {
    let within = if abs(value) >= turn {
        remainder(value, turn)
    } else {
        value
    };
    if within < 0real {
        turn + within
    } else {
        within
    }
}

/// The angle in degrees in `[0, 360)` that is equivalent to `deg_value`.
pub open spec fn normalize_360(deg_value: real) -> real {
    normalize(deg_value, 360real)
}

/// The angle in radians in `[0, 2 * pi)` that is equivalent to
/// `rad_value`.
pub open spec fn normalize_radian(rad_value: real, pi: real) -> real {
    normalize(rad_value, 2real * pi)
}

/// Degrees to radians.
pub open spec fn deg2rad(value360: real, pi: real) -> real {
    value360 * pi / 180real
}

/// Radians to degrees.
pub open spec fn rad2deg(valuerad: real, pi: real) -> real {
    valuerad * 180real / pi
}

/// The angle of an azimuth.
pub open spec fn azimuth_to_angle(az: real, pi: real) -> real {
    deg2rad(normalize_360(90real - az), pi)
}

/// The azimuth of an angle.
pub open spec fn angle_to_azimuth(ang: real, pi: real) -> real {
    rad2deg(normalize_radian(pi / 2real - ang, pi), pi)
}

/// The angle `value` after `turns` more whole turns of `turn` units.
pub open spec fn add_turns(value: real, turn: real, turns: int) -> real {
    value + turn * (turns as real)
}

/// A normalised angle lies within one turn, the full turn excluded, and it
/// differs from the angle that was given by a whole number of turns.
pub proof fn lemma_normalize(value: real, turn: real)
    requires
        turn > 0real,
    ensures
        0real <= normalize(value, turn) < turn,
        exists|turns: int| normalize(value, turn) == #[trigger] add_turns(value, turn, turns),
{
    let q = value / turn;
    assert(value == q * turn) by (nonlinear_arith)
        requires
            q == value / turn,
            turn > 0real,
    ;
    let t = truncate(q);
    let r = remainder(value, turn);
    assert(r == turn * (q - t as real)) by (nonlinear_arith)
        requires
            r == value - turn * (t as real),
            value == q * turn,
    ;
    let whole = t as real;
    assert((-t) as real == -whole);
    assert(turn * (-whole) == -(turn * whole)) by (nonlinear_arith);
    if abs(value) >= turn {
        if q >= 0real {
            let f = q - t as real;
            assert(0real <= f < 1real);
            assert(0real <= turn * f < turn) by (nonlinear_arith)
                requires
                    0real <= f < 1real,
                    turn > 0real,
            ;
            assert(normalize(value, turn) == add_turns(value, turn, -t));
        } else {
            let f = q - t as real;
            assert(-1real < f <= 0real);
            assert(-turn < turn * f <= 0real) by (nonlinear_arith)
                requires
                    -1real < f <= 0real,
                    turn > 0real,
            ;
            if r < 0real {
                assert(turn + r == value + turn * ((1 - t) as real)) by (nonlinear_arith)
                    requires
                        r == value - turn * (t as real),
                ;
                assert(normalize(value, turn) == add_turns(value, turn, 1 - t));
            } else {
                assert(normalize(value, turn) == add_turns(value, turn, -t));
            }
        }
    } else {
        assert(turn * (1int as real) == turn && turn * (0int as real) == 0real)
            by (nonlinear_arith);
        if value < 0real {
            assert(normalize(value, turn) == add_turns(value, turn, 1));
        } else {
            assert(normalize(value, turn) == add_turns(value, turn, 0));
        }
    }
}

/// The four cardinal directions: north is the azimuth 0 and the angle
/// `pi / 2`, east the azimuth 90 and the angle 0, south the azimuth 180
/// and the angle `3 * pi / 2`, west the azimuth 270 and the angle `pi`.
pub proof fn lemma_cardinal_directions(pi: real)
    requires
        pi > 0real,
    ensures
        azimuth_to_angle(0real, pi) == pi / 2real,
        azimuth_to_angle(90real, pi) == 0real,
        azimuth_to_angle(180real, pi) == 3real * pi / 2real,
        azimuth_to_angle(270real, pi) == pi,
{
    assert(normalize_360(90real) == 90real);
    assert(normalize_360(0real) == 0real);
    assert(normalize_360(-90real) == 270real);
    assert(normalize_360(-180real) == 180real);
    assert(90real * pi / 180real == pi / 2real && 0real * pi / 180real == 0real && 270real * pi
        / 180real == 3real * pi / 2real && 180real * pi / 180real == pi) by (nonlinear_arith);
}

/// Round trip: an azimuth in `[0, 360)` that is converted to an angle and
/// back is the same azimuth.
pub proof fn lemma_azimuth_round_trip(az: real, pi: real)
    requires
        0real <= az < 360real,
        pi > 0real,
    ensures
        0real <= azimuth_to_angle(az, pi) < 2real * pi,
        angle_to_azimuth(azimuth_to_angle(az, pi), pi) == az,
{
    let shifted = normalize_360(90real - az);
    assert(shifted == if az <= 90real {
        90real - az
    } else {
        450real - az
    });
    let angle = shifted * pi / 180real;
    assert(0real <= angle < 2real * pi) by (nonlinear_arith)
        requires
            angle == shifted * pi / 180real,
            0real <= shifted < 360real,
            pi > 0real,
    ;
    let back = pi / 2real - angle;
    assert(back == (90real - shifted) * pi / 180real) by (nonlinear_arith)
        requires
            back == pi / 2real - angle,
            angle == shifted * pi / 180real,
    ;
    assert(-2real * pi < back <= pi / 2real);
    let normal = normalize_radian(back, pi);
    assert(normal == az * pi / 180real) by (nonlinear_arith)
        requires
            normal == (if back < 0real {
                2real * pi + back
            } else {
                back
            }),
            back == (90real - shifted) * pi / 180real,
            shifted == (if az <= 90real {
                90real - az
            } else {
                450real - az
            }),
            pi > 0real,
            0real <= az < 360real,
    ;
    assert(normal * 180real / pi == az) by (nonlinear_arith)
        requires
            normal == az * pi / 180real,
            pi > 0real,
    ;
}

/// Round trip: an angle in `[0, 2 * pi)` that is converted to an azimuth
/// and back is the same angle.
pub proof fn lemma_angle_round_trip(ang: real, pi: real)
    requires
        0real <= ang < 2real * pi,
        pi > 0real,
    ensures
        0real <= angle_to_azimuth(ang, pi) < 360real,
        azimuth_to_angle(angle_to_azimuth(ang, pi), pi) == ang,
{
    let back = pi / 2real - ang;
    let normal = normalize_radian(back, pi);
    assert(normal == if back < 0real {
        2real * pi + back
    } else {
        back
    });
    let az = normal * 180real / pi;
    assert(az == (if ang <= pi / 2real {
        90real - ang * 180real / pi
    } else {
        450real - ang * 180real / pi
    })) by (nonlinear_arith)
        requires
            az == normal * 180real / pi,
            normal == (if back < 0real {
                2real * pi + back
            } else {
                back
            }),
            back == pi / 2real - ang,
            pi > 0real,
    ;
    let degrees = ang * 180real / pi;
    assert(0real <= degrees < 360real && degrees * pi / 180real == ang && (ang <= pi / 2real
        <==> degrees <= 90real)) by (nonlinear_arith)
        requires
            degrees == ang * 180real / pi,
            0real <= ang < 2real * pi,
            pi > 0real,
    ;
    let shifted = normalize_360(90real - az);
    assert(shifted == degrees);
}

} // verus!
