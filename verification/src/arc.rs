//! The circular arc over the real numbers.
//!
//! A direction of travel is given as a unit vector, the cosine and the sine
//! of its angle.

use vstd::prelude::*;
use crate::angles::add_turns;
use crate::angles::angle_to_azimuth;
use crate::angles::azimuth_to_angle;
use crate::angles::lemma_normalize;
use crate::angles::normalize;
use crate::angles::normalize_360;
use crate::angles::normalize_radian;
use crate::angles::rad2deg;
use crate::clothoid::Turn;
use crate::error::GeometryError;
use crate::section::spec_center_side;
use crate::section::spec_radial_side;
use crate::section::Side;
use crate::sign::abs;

verus! {

/// The vector `direction` turned by a quarter turn to the given side:
/// `(-dy, dx)` to the left, `(dy, -dx)` to the right.
pub open spec fn normal(direction: (real, real), side: Side) -> (real, real) {
    match side {
        Side::Left => (-direction.1, direction.0),
        Side::Right => (direction.1, -direction.0),
    }
}

/// A circular arc over the real numbers.
pub struct CircularArc {
    /// The azimuth at the start point, in degrees.
    pub start_azimuth: real,
    /// The radius. A positive radius is a curve to the right.
    pub radius: real,
    /// The length of the arc.
    pub length: real,
}

impl CircularArc {
    /// Whether the numbers describe an arc: the radius is not zero and the
    /// length is not negative.
    pub open spec fn valid(self) -> bool {
        self.radius != 0real && self.length >= 0real
    }

    /// The length of the full circle, for the given value of `pi`.
    pub open spec fn full_circle(self, pi: real) -> real {
        abs(2real * pi * self.radius)
    }

    /// The azimuth at the arc length `s`: the start azimuth, turned by
    /// `s / radius` radians. It is refused for an arc length that is
    /// negative or beyond one full circle.
    pub open spec fn azimuth_at_s(self, s: real, pi: real) -> Result<real, GeometryError> {
        if s < 0real || s > self.full_circle(pi) {
            Err(GeometryError::OutOfRange)
        } else {
            Ok(angle_to_azimuth(azimuth_to_angle(self.start_azimuth, pi) - s / self.radius, pi))
        }
    }

    /// The azimuth at the end of the arc.
    pub open spec fn end_azimuth(self, pi: real) -> Result<real, GeometryError> {
        self.azimuth_at_s(self.length, pi)
    }

    /// The way the arc turns.
    pub open spec fn turn(self) -> Turn {
        if self.radius > 0real {
            Turn::Right
        } else {
            Turn::Left
        }
    }

    /// The centre of the circle of an arc that leaves the point `start` in
    /// the direction of the unit vector `direction`: at the distance of the
    /// radius from the start point, on the side to which the arc turns.
    pub open spec fn center(self, start: (real, real), direction: (real, real)) -> (real, real) {
        let to_center = normal(direction, spec_center_side(self.turn()));
        (start.0 + abs(self.radius) * to_center.0, start.1 + abs(self.radius) * to_center.1)
    }

    /// The point of the circle round `center` at which the arc runs in the
    /// direction of the unit vector `direction`: at the distance of the
    /// radius from the centre, on the outside of the turn.
    pub open spec fn point(self, center: (real, real), direction: (real, real)) -> (real, real) {
        let from_center = normal(direction, spec_radial_side(self.turn()));
        (center.0 + abs(self.radius) * from_center.0, center.1 + abs(self.radius) * from_center.1)
    }
}

/// Along a circular arc the azimuth advances by `s / radius` radians: at
/// every arc length within one full circle it lies in `[0, 360)`, and
/// it differs from the start azimuth plus `s / radius` in degrees by a whole
/// number of turns.
pub proof fn lemma_arc_azimuth(arc: CircularArc, s: real, pi: real)
    requires
        arc.radius != 0real,
        pi > 0real,
        0real <= s <= arc.full_circle(pi),
    ensures
        arc.azimuth_at_s(s, pi) is Ok,
        0real <= arc.azimuth_at_s(s, pi).unwrap() < 360real,
        exists|turns: int|
            arc.azimuth_at_s(s, pi).unwrap() == #[trigger] add_turns(
                arc.start_azimuth + rad2deg(s / arc.radius, pi),
                360real,
                turns,
            ),
{
    let shifted = 90real - arc.start_azimuth;
    lemma_normalize(shifted, 360real);
    let j = choose|turns: int|
        normalize(shifted, 360real) == #[trigger] add_turns(shifted, 360real, turns);
    let start_angle = azimuth_to_angle(arc.start_azimuth, pi);
    let back = pi / 2real - (start_angle - s / arc.radius);
    lemma_normalize(back, 2real * pi);
    let k = choose|turns: int|
        normalize(back, 2real * pi) == #[trigger] add_turns(back, 2real * pi, turns);
    let normal = normalize_radian(back, pi);
    let azimuth = arc.azimuth_at_s(s, pi).unwrap();
    assert(azimuth == normal * 180real / pi);
    assert(0real <= azimuth < 360real) by (nonlinear_arith)
        requires
            azimuth == normal * 180real / pi,
            0real <= normal < 2real * pi,
            pi > 0real,
    ;
    let jr = j as real;
    let kr = k as real;
    let turned = s / arc.radius;
    assert(azimuth == arc.start_azimuth + turned * 180real / pi + 360real * (kr - jr))
        by (nonlinear_arith)
        requires
            azimuth == normal * 180real / pi,
            normal == back + (2real * pi) * kr,
            back == pi / 2real - (start_angle - turned),
            start_angle == (shifted + 360real * jr) * pi / 180real,
            shifted == 90real - arc.start_azimuth,
            pi > 0real,
    ;
    assert((k - j) as real == kr - jr);
    assert(azimuth == add_turns(
        arc.start_azimuth + rad2deg(s / arc.radius, pi),
        360real,
        k - j,
    ));
}

/// A quarter of a circle turns the azimuth by 90 degrees, whatever the
/// azimuth it starts with: clockwise on an arc to the right,
/// counter-clockwise on an arc to the left.
pub proof fn lemma_quarter_arc(arc: CircularArc, pi: real)
    requires
        arc.radius != 0real,
        pi > 0real,
        0real <= arc.start_azimuth < 360real,
        arc.length == pi * abs(arc.radius) / 2real,
    ensures
        arc.valid(),
        arc.radius > 0real ==> arc.end_azimuth(pi) == Ok::<real, GeometryError>(
            if arc.start_azimuth < 270real {
                arc.start_azimuth + 90real
            } else {
                arc.start_azimuth - 270real
            },
        ),
        arc.radius < 0real ==> arc.end_azimuth(pi) == Ok::<real, GeometryError>(
            if arc.start_azimuth >= 90real {
                arc.start_azimuth - 90real
            } else {
                arc.start_azimuth + 270real
            },
        ),
{
    let r = arc.radius;
    let az = arc.start_azimuth;
    let s = arc.length;
    let full = arc.full_circle(pi);
    assert(0real <= s <= full && s / r == (if r > 0real {
        pi / 2real
    } else {
        -(pi / 2real)
    })) by (nonlinear_arith)
        requires
            s == pi * abs(r) / 2real,
            full == abs(2real * pi * r),
            abs(r) == (if r < 0real {
                -r
            } else {
                r
            }),
            abs(2real * pi * r) == (if 2real * pi * r < 0real {
                -(2real * pi * r)
            } else {
                2real * pi * r
            }),
            r != 0real,
            pi > 0real,
    ;
    let shifted = normalize_360(90real - az);
    assert(shifted == if az <= 90real {
        90real - az
    } else {
        450real - az
    });
    let start_angle = shifted * pi / 180real;
    let back = pi / 2real - (start_angle - s / r);
    let degrees = if r > 0real {
        180real - shifted
    } else {
        -shifted
    };
    assert(back == degrees * pi / 180real) by (nonlinear_arith)
        requires
            back == pi / 2real - (start_angle - s / r),
            start_angle == shifted * pi / 180real,
            s / r == (if r > 0real {
                pi / 2real
            } else {
                -(pi / 2real)
            }),
            degrees == (if r > 0real {
                180real - shifted
            } else {
                -shifted
            }),
    ;
    assert(-360real < degrees <= 180real);
    assert(-(2real * pi) < back < 2real * pi && (back < 0real <==> degrees < 0real))
        by (nonlinear_arith)
        requires
            back == degrees * pi / 180real,
            -360real < degrees <= 180real,
            pi > 0real,
    ;
    let normal = normalize_radian(back, pi);
    let wrapped = if degrees < 0real {
        degrees + 360real
    } else {
        degrees
    };
    assert(normal == wrapped * pi / 180real) by (nonlinear_arith)
        requires
            normal == (if back < 0real {
                2real * pi + back
            } else {
                back
            }),
            back == degrees * pi / 180real,
            back < 0real <==> degrees < 0real,
            wrapped == (if degrees < 0real {
                degrees + 360real
            } else {
                degrees
            }),
    ;
    assert(normal * 180real / pi == wrapped) by (nonlinear_arith)
        requires
            normal == wrapped * pi / 180real,
            pi > 0real,
    ;
}


/// The sides fit together: the point at which an arc runs in its start
/// direction is its start point, every point of the arc is at the distance
/// of the radius from the centre, and the arc runs at a right angle to the
/// radius there, with the centre on the side to which it turns.
pub proof fn lemma_arc_circle(
    arc: CircularArc,
    start: (real, real),
    start_direction: (real, real),
    direction: (real, real),
)
    requires
        arc.radius != 0real,
        direction.0 * direction.0 + direction.1 * direction.1 == 1real,
    ensures
        arc.point(arc.center(start, start_direction), start_direction) == start,
        ({
            let center = arc.center(start, start_direction);
            let point = arc.point(center, direction);
            let radius = (point.0 - center.0, point.1 - center.1);
            &&& radius.0 * radius.0 + radius.1 * radius.1 == arc.radius * arc.radius
            &&& radius.0 * direction.0 + radius.1 * direction.1 == 0real
            &&& arc.radius > 0real ==> direction.0 * radius.1 - direction.1 * radius.0 > 0real
            &&& arc.radius < 0real ==> direction.0 * radius.1 - direction.1 * radius.0 < 0real
        }),
{
    let r = abs(arc.radius);
    let dx = direction.0;
    let dy = direction.1;
    let sx = start_direction.0;
    let sy = start_direction.1;
    assert(r * (-sy) == -(r * sy)) by (nonlinear_arith);
    assert(r * (-sx) == -(r * sx)) by (nonlinear_arith);
    assert(r * r == arc.radius * arc.radius) by (nonlinear_arith)
        requires
            r == arc.radius || r == -arc.radius,
    ;
    lemma_scaled_normal(r, dx, dy);
}

/// The vector `(dx, dy)` of length one, turned by a quarter turn to either
/// side and scaled by `r`, has the length `|r|`, is at a right angle to the
/// vector, and lies to the left or to the right of it.
proof fn lemma_scaled_normal(r: real, dx: real, dy: real)
    requires
        dx * dx + dy * dy == 1real,
    ensures
        (r * (-dy)) * (r * (-dy)) + (r * dx) * (r * dx) == r * r,
        (r * dy) * (r * dy) + (r * (-dx)) * (r * (-dx)) == r * r,
        (r * (-dy)) * dx + (r * dx) * dy == 0real,
        (r * dy) * dx + (r * (-dx)) * dy == 0real,
        dx * (r * dx) - dy * (r * (-dy)) == r,
        dx * (r * (-dx)) - dy * (r * dy) == -r,
{
    let u = r * dx;
    let v = r * dy;
    assert(r * (-dy) == -v) by (nonlinear_arith)
        requires
            v == r * dy,
    ;
    assert(r * (-dx) == -u) by (nonlinear_arith)
        requires
            u == r * dx,
    ;
    assert(u * u + v * v == r * r) by (nonlinear_arith)
        requires
            u == r * dx,
            v == r * dy,
            dx * dx + dy * dy == 1real,
    ;
    assert((-v) * (-v) == v * v && (-u) * (-u) == u * u) by (nonlinear_arith);
    assert(u * dy == v * dx) by (nonlinear_arith)
        requires
            u == r * dx,
            v == r * dy,
    ;
    assert((-v) * dx == -(v * dx) && (-u) * dy == -(u * dy)) by (nonlinear_arith);
    assert(dx * u + dy * v == r) by (nonlinear_arith)
        requires
            u == r * dx,
            v == r * dy,
            dx * dx + dy * dy == 1real,
    ;
    assert(dy * (-v) == -(dy * v) && dx * (-u) == -(dx * u)) by (nonlinear_arith);
}

} // verus!
