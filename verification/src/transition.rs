//! The clothoid transition over the real numbers.
//!
//! A direction of travel is given as a unit vector, the cosine and the sine
//! of its angle.

use vstd::prelude::*;
use crate::angles::add_turns;
use crate::angles::lemma_normalize;
use crate::angles::normalize_360;
use crate::angles::rad2deg;
use crate::arc::normal;
use crate::clothoid::Clothoid;
use crate::section::Side;
use crate::sign::abs;

verus! {

/// The end point of a transition that is placed directly: it leaves the
/// point `start` in the direction of the unit vector `direction`, and its
/// end lies at the abscissa of the end of its clothoid ahead of the start
/// point and at the ordinate of that end to the left of it.
pub open spec fn direct_end_point(
    start: (real, real),
    direction: (real, real),
    clothoid: Clothoid,
    length: real,
) -> (real, real) {
    let ahead = clothoid.x(length);
    let aside = clothoid.y(length);
    let left = normal(direction, Side::Left);
    (
        start.0 + ahead * direction.0 + aside * left.0,
        start.1 + ahead * direction.1 + aside * left.1,
    )
}

/// The end point of a transition that is placed directly lies the abscissa
/// of the end of its clothoid ahead of the start point, and the ordinate of
/// that end to the left of the start direction. By
/// [`lemma_signs_of_a_turn`](crate::clothoid::lemma_signs_of_a_turn) the
/// abscissa is positive, and the ordinate is negative for a positive radius:
/// the transition ends ahead of its start point and on the side to which it
/// turns.
pub proof fn lemma_direct_end_point(
    start: (real, real),
    direction: (real, real),
    clothoid: Clothoid,
    length: real,
)
    requires
        direction.0 * direction.0 + direction.1 * direction.1 == 1real,
    ensures
        ({
            let end = direct_end_point(start, direction, clothoid, length);
            let moved = (end.0 - start.0, end.1 - start.1);
            &&& moved.0 * direction.0 + moved.1 * direction.1 == clothoid.x(length)
            &&& direction.0 * moved.1 - direction.1 * moved.0 == clothoid.y(length)
        }),
{
    let dx = direction.0;
    let dy = direction.1;
    let x = clothoid.x(length);
    let y = clothoid.y(length);
    let mx = x * dx + y * (-dy);
    let my = x * dy + y * dx;
    assert(mx * dx + my * dy == x && dx * my - dy * mx == y) by (nonlinear_arith)
        requires
            dx * dx + dy * dy == 1real,
            mx == x * dx + y * (-dy),
            my == x * dy + y * dx,
    ;
    let end = direct_end_point(start, direction, clothoid, length);
    assert(end.0 - start.0 == mx && end.1 - start.1 == my);
}

/// The centre of the circle that a directly placed transition ends on.
///
/// In the local frame of the clothoid the centre lies behind the end of the
/// clothoid by `|R * sin(alpha)|`, and off the first axis by the radius and
/// the setback, on the side to which the clothoid turns. `cosine` and `sine`
/// are the cosine and the sine of the deflection angle at the end of the
/// clothoid. The local centre is then turned into the start direction and
/// moved to the start point.
pub open spec fn direct_center(
    start: (real, real),
    direction: (real, real),
    clothoid: Clothoid,
    cosine: real,
    sine: real,
) -> (real, real) {
    let ahead = clothoid.x(clothoid.length()) - abs(clothoid.end_radius * sine);
    let offset = abs(clothoid.end_radius) + clothoid.retranqueo(cosine);
    let aside = if clothoid.end_radius > 0real {
        -offset
    } else {
        offset
    };
    let left = normal(direction, Side::Left);
    (
        start.0 + ahead * direction.0 + aside * left.0,
        start.1 + ahead * direction.1 + aside * left.1,
    )
}

/// The centre of the circle lies off the line through the start point in
/// the start direction by the radius and the setback: to the right of it for
/// a positive radius, to the left for a negative one. By
/// [`lemma_retranqueo_not_negative`](crate::clothoid::lemma_retranqueo_not_negative)
/// the setback is not negative, so that the centre is at least the radius
/// away from that line, on the side to which the transition turns.
pub proof fn lemma_direct_center(
    start: (real, real),
    direction: (real, real),
    clothoid: Clothoid,
    cosine: real,
    sine: real,
)
    requires
        direction.0 * direction.0 + direction.1 * direction.1 == 1real,
    ensures
        ({
            let center = direct_center(start, direction, clothoid, cosine, sine);
            let moved = (center.0 - start.0, center.1 - start.1);
            let offset = abs(clothoid.end_radius) + clothoid.retranqueo(cosine);
            direction.0 * moved.1 - direction.1 * moved.0 == if clothoid.end_radius > 0real {
                -offset
            } else {
                offset
            }
        }),
{
    let dx = direction.0;
    let dy = direction.1;
    let x = clothoid.x(clothoid.length()) - abs(clothoid.end_radius * sine);
    let offset = abs(clothoid.end_radius) + clothoid.retranqueo(cosine);
    let y = if clothoid.end_radius > 0real {
        -offset
    } else {
        offset
    };
    let mx = x * dx + y * (-dy);
    let my = x * dy + y * dx;
    assert(dx * my - dy * mx == y) by (nonlinear_arith)
        requires
            dx * dx + dy * dy == 1real,
            mx == x * dx + y * (-dy),
            my == x * dy + y * dx,
    ;
    let center = direct_center(start, direction, clothoid, cosine, sine);
    assert(center.0 - start.0 == mx && center.1 - start.1 == my);
}

/// The azimuth at the end of a transition of the given length that starts
/// with the azimuth `start_azimuth` and touches a circle of the radius
/// `circle_radius`: the start azimuth and `length / (2 * circle_radius)`
/// radians, in degrees and normalised.
pub open spec fn transition_end_azimuth(
    start_azimuth: real,
    circle_radius: real,
    length: real,
    pi: real,
) -> real {
    normalize_360(start_azimuth + rad2deg(length / (2real * circle_radius), pi))
}

/// The azimuth at the end of a transition lies in `[0, 360)`, and it
/// differs from the start azimuth plus `length / (2 * circle_radius)` in
/// degrees by a whole number of turns.
pub proof fn lemma_transition_end_azimuth(
    start_azimuth: real,
    circle_radius: real,
    length: real,
    pi: real,
)
    ensures
        0real <= transition_end_azimuth(start_azimuth, circle_radius, length, pi) < 360real,
        exists|turns: int|
            transition_end_azimuth(start_azimuth, circle_radius, length, pi) == #[trigger] add_turns(
                start_azimuth + rad2deg(length / (2real * circle_radius), pi),
                360real,
                turns,
            ),
{
    lemma_normalize(start_azimuth + rad2deg(length / (2real * circle_radius), pi), 360real);
}

/// A transition that is placed directly turns as its clothoid does: its
/// end azimuth is the start azimuth and the azimuth increment of the
/// clothoid, normalised.
pub proof fn lemma_direct_end_azimuth(clothoid: Clothoid, start_azimuth: real, pi: real)
    requires
        clothoid.end_radius != 0real,
        pi != 0real,
    ensures
        transition_end_azimuth(start_azimuth, clothoid.end_radius, clothoid.length(), pi)
            == normalize_360(start_azimuth + clothoid.azimuth_increment(pi)),
{
    let length = clothoid.length();
    let radius = clothoid.end_radius;
    assert(length / (2real * radius) * 180real / pi == length / radius / 2real * 180real / pi)
        by (nonlinear_arith)
        requires
            radius != 0real,
            pi != 0real,
    ;
}

} // verus!
