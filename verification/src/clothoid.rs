//! The canonical clothoid.
//!
//! A clothoid is described by its parameter `A` and by the radius `R` that it
//! reaches at its far end. In its local frame it starts at the origin, with a
//! horizontal tangent and no curvature. The sign of `R` says which way it
//! turns, and with that the sign of everything that is measured across the
//! curve.
//!
//! [`check_clothoid`] and [`Turn`] are the rules that a caller runs.
//! [`Clothoid`] is the curve over the real numbers: it says what the
//! quantities of a clothoid are, and carries the laws that hold of them. A
//! caller that computes in floating point evaluates the same formulas, and
//! meets these laws as far as its rounding allows.

use vstd::prelude::*;
use crate::abscissa::lemma_abscissa_grows;
use crate::abscissa::square_limit;
use crate::error::GeometryError;
use crate::series::lemma_y_divisor_table;
use crate::series::lemma_power_positive;
use crate::series::lemma_power_shrinks;
use crate::series::power;
use crate::series::x_sum;
use crate::series::y_divisor;
use crate::series::y_sum;
use crate::series::y_term_value;
use crate::series::NUMITER;
use crate::sign::abs;
use crate::sign::Sign;

verus! {

/// The way a curve turns, for an observer who moves forward along it.
#[derive(Clone, Copy, Debug, PartialEq, Eq, Structural)]
pub enum Turn {
    /// Counter-clockwise. The radius is negative.
    Left,
    /// Clockwise. The radius is positive.
    Right,
}

impl Turn {
    /// The other turn.
    pub open spec fn spec_opposite(self) -> Turn {
        match self {
            Turn::Left => Turn::Right,
            Turn::Right => Turn::Left,
        }
    }

    /// The turn that a radius of the given sign denotes. A radius of zero
    /// stands for a straight line and denotes none.
    pub open spec fn spec_of_radius(radius: Sign) -> Option<Turn> {
        match radius {
            Sign::Negative => Some(Turn::Left),
            Sign::Zero => None,
            Sign::Positive => Some(Turn::Right),
        }
    }

    /// The sign of the radius of a curve that turns this way. It is also the
    /// sign of the azimuth increment along the curve, since azimuths grow
    /// clockwise.
    pub open spec fn radius_sign(self) -> Sign {
        match self {
            Turn::Left => Sign::Negative,
            Turn::Right => Sign::Positive,
        }
    }

    /// The sign, in the local frame of a clothoid, of the deflection angle
    /// and of the ordinate `y`. Angles grow counter-clockwise there, so it is
    /// opposite to the sign of the radius.
    pub open spec fn spec_deflection_sign(self) -> Sign {
        self.radius_sign().negate()
    }

    /// The other turn.
    #[verifier::when_used_as_spec(spec_opposite)]
    pub fn opposite(self) -> (result: Turn)
        ensures
            result == self.spec_opposite(),
    {
        match self {
            Turn::Left => Turn::Right,
            Turn::Right => Turn::Left,
        }
    }

    /// The turn that a radius of the given sign denotes: `None` for zero,
    /// `Left` for a negative and `Right` for a positive radius.
    #[verifier::when_used_as_spec(spec_of_radius)]
    pub fn of_radius(radius: Sign) -> (result: Option<Turn>)
        ensures
            result == Turn::spec_of_radius(radius),
            result.is_none() <==> radius == Sign::Zero,
            result.is_some() ==> result.unwrap().radius_sign() == radius,
    {
        match radius {
            Sign::Negative => Some(Turn::Left),
            Sign::Zero => None,
            Sign::Positive => Some(Turn::Right),
        }
    }

    /// The sign of the local deflection angle and of the local ordinate:
    /// negative on a curve to the right, positive on one to the left.
    #[verifier::when_used_as_spec(spec_deflection_sign)]
    pub fn deflection_sign(self) -> (result: Sign)
        ensures
            result == self.spec_deflection_sign(),
            result == self.radius_sign().negate(),
            result != Sign::Zero,
    {
        match self {
            Turn::Left => Sign::Positive,
            Turn::Right => Sign::Negative,
        }
    }
}

/// Whether a parameter and an end radius of these signs describe a clothoid:
/// the parameter is positive and the radius is not zero.
pub open spec fn clothoid_valid(parameter: Sign, end_radius: Sign) -> bool {
    parameter == Sign::Positive && end_radius != Sign::Zero
}

/// Decides whether a parameter and an end radius describe a clothoid, and
/// which way it turns.
///
/// Both signs are taken with the caller's tolerance: a parameter or a radius
/// that the tolerance does not tell from zero is `Zero`.
pub fn check_clothoid(parameter: Sign, end_radius: Sign) -> (result: Result<Turn, GeometryError>)
    ensures
        clothoid_valid(parameter, end_radius) ==> result == Ok::<Turn, GeometryError>(
            Turn::spec_of_radius(end_radius).unwrap(),
        ),
        !clothoid_valid(parameter, end_radius) ==> result == Err::<Turn, GeometryError>(
            GeometryError::InvalidGeometry,
        ),
{
    match parameter {
        Sign::Positive => match Turn::of_radius(end_radius) {
            Some(turn) => Ok(turn),
            None => Err(GeometryError::InvalidGeometry),
        },
        _ => Err(GeometryError::InvalidGeometry),
    }
}

/// A clothoid over the real numbers.
pub struct Clothoid {
    /// The parameter `A`. It sets how fast the curvature grows:
    /// `A^2 = length * |end_radius|`.
    pub parameter: real,
    /// The radius at the far end. A positive radius is a curve to the right.
    pub end_radius: real,
}

impl Clothoid {
    /// Whether the two numbers describe a clothoid: the parameter is
    /// positive and the radius is not zero.
    pub open spec fn valid(self) -> bool {
        self.parameter > 0real && self.end_radius != 0real
    }

    /// The way the clothoid turns.
    pub open spec fn turn(self) -> Turn {
        if self.end_radius > 0real {
            Turn::Right
        } else {
            Turn::Left
        }
    }

    /// The clothoid with the same parameter and the negated end radius.
    pub open spec fn mirrored(self) -> Clothoid {
        Clothoid { parameter: self.parameter, end_radius: -self.end_radius }
    }

    /// The length of the clothoid: `A^2 / |R|`.
    pub open spec fn length(self) -> real {
        self.parameter * self.parameter / abs(self.end_radius)
    }

    /// The change of azimuth over the whole clothoid in degrees,
    /// `length / (2 R) * 180 / pi`, for the given value of `pi`.
    pub open spec fn azimuth_increment(self, pi: real) -> real {
        self.length() / self.end_radius / 2real * 180real / pi
    }

    /// The azimuth at the end of the clothoid in its local frame, where the
    /// start direction has the azimuth 90.
    pub open spec fn end_azimuth(self, pi: real) -> real {
        90real + self.azimuth_increment(pi)
    }

    /// The deflection angle at the arc length `s`, in radians: the angle
    /// from the first axis to the tangent, `s^2 / (2 A^2)` with the sign
    /// opposite to that of the radius.
    pub open spec fn alpha(self, s: real) -> real {
        let magnitude = s * s / (2real * self.parameter * self.parameter);
        if self.end_radius > 0real {
            -magnitude
        } else {
            magnitude
        }
    }

    /// The abscissa of the point at the arc length `s`.
    pub open spec fn x(self, s: real) -> real {
        s * x_sum(abs(self.alpha(s)), (NUMITER + 1) as nat)
    }

    /// The ordinate of the point at the arc length `s`.
    pub open spec fn y(self, s: real) -> real {
        let magnitude = s * y_sum(abs(self.alpha(s)), NUMITER as nat);
        if self.end_radius > 0real {
            -magnitude
        } else {
            magnitude
        }
    }

    /// The setback of the circle that the clothoid ends on: how far the
    /// circle stays away from the first axis, `|y| - |R| * (1 - cos(alpha))`
    /// at the end of the clothoid. `cosine` is the cosine of the deflection
    /// angle there.
    pub open spec fn retranqueo(self, cosine: real) -> real {
        abs(self.y(self.length())) - abs(self.end_radius) * (1real - cosine)
    }
}

/// What [`check_clothoid`] accepts is a clothoid.
///
/// On exact signs the rule accepts the valid clothoids and no others. On
/// signs taken with a tolerance it accepts only valid clothoids, those whose
/// parameter and radius are at least the tolerance away from zero. Either way
/// the turn that it returns is the turn of the clothoid.
pub proof fn lemma_checked_clothoid(clothoid: Clothoid, tolerance: real)
    requires
        tolerance >= 0real,
    ensures
        clothoid_valid(Sign::of(clothoid.parameter), Sign::of(clothoid.end_radius))
            <==> clothoid.valid(),
        clothoid_valid(
            Sign::within(clothoid.parameter, tolerance),
            Sign::within(clothoid.end_radius, tolerance),
        ) <==> clothoid.valid() && clothoid.parameter >= tolerance && abs(clothoid.end_radius)
            >= tolerance,
        clothoid_valid(
            Sign::within(clothoid.parameter, tolerance),
            Sign::within(clothoid.end_radius, tolerance),
        ) ==> Turn::spec_of_radius(Sign::within(clothoid.end_radius, tolerance)) == Some(
            clothoid.turn(),
        ),
{
}

/// The length of a clothoid is positive, whatever the signs of its
/// parameter and of its end radius, as long as neither is zero.
pub proof fn lemma_length_positive(clothoid: Clothoid)
    requires
        clothoid.parameter != 0real,
        clothoid.end_radius != 0real,
    ensures
        clothoid.length() > 0real,
{
    let r = abs(clothoid.end_radius);
    let a = clothoid.parameter;
    assert(a * a / r > 0real) by (nonlinear_arith)
        requires
            a != 0real,
            r > 0real,
    ;
}

/// A clothoid starts at the origin of its local frame.
pub proof fn lemma_origin(clothoid: Clothoid)
    ensures
        clothoid.x(0real) == 0real,
        clothoid.y(0real) == 0real,
{
    let a = abs(clothoid.alpha(0real));
    assert(0real * x_sum(a, (NUMITER + 1) as nat) == 0real) by (nonlinear_arith);
    assert(0real * y_sum(a, NUMITER as nat) == 0real) by (nonlinear_arith);
}

/// Sign symmetry: negating the end radius of a clothoid makes it turn the
/// other way. It keeps the length and the abscissa of every point, and
/// negates the deflection angle and the ordinate of every point and the
/// azimuth increment.
pub proof fn lemma_sign_symmetry(clothoid: Clothoid, s: real, pi: real)
    requires
        clothoid.end_radius != 0real,
        pi != 0real,
    ensures
        clothoid.mirrored().turn() == clothoid.turn().spec_opposite(),
        clothoid.mirrored().length() == clothoid.length(),
        clothoid.mirrored().alpha(s) == -clothoid.alpha(s),
        clothoid.mirrored().x(s) == clothoid.x(s),
        clothoid.mirrored().y(s) == -clothoid.y(s),
        clothoid.mirrored().azimuth_increment(pi) == -clothoid.azimuth_increment(pi),
{
    let r = clothoid.end_radius;
    let l = clothoid.length();
    assert(l / (-r) / 2real * 180real / pi == -(l / r / 2real * 180real / pi)) by (nonlinear_arith)
        requires
            r != 0real,
            pi != 0real,
    ;
}

/// The signs across a clothoid are those of its turn.
///
/// Away from the origin the deflection angle has the deflection sign of the
/// turn, and the azimuth increment has the sign of the radius. As long as
/// the deflection angle stays within one radian, that is for
/// `s^2 <= 2 A^2`, the abscissa of a point at a positive arc length is
/// positive and its ordinate has the deflection sign of the turn.
pub proof fn lemma_signs_of_a_turn(clothoid: Clothoid, s: real, pi: real)
    requires
        clothoid.valid(),
        s > 0real,
        pi > 0real,
    ensures
        Sign::of(clothoid.alpha(s)) == clothoid.turn().spec_deflection_sign(),
        Sign::of(clothoid.azimuth_increment(pi)) == clothoid.turn().radius_sign(),
        s * s <= 2real * clothoid.parameter * clothoid.parameter ==> Sign::of(clothoid.x(s))
            == Sign::Positive,
        s * s <= 2real * clothoid.parameter * clothoid.parameter ==> Sign::of(clothoid.y(s))
            == clothoid.turn().spec_deflection_sign(),
{
    let k = 2real * clothoid.parameter * clothoid.parameter;
    let a = s * s / k;
    assert(k > 0real && a > 0real && (s * s <= k ==> a <= 1real)) by (nonlinear_arith)
        requires
            k == 2real * clothoid.parameter * clothoid.parameter,
            clothoid.parameter > 0real,
            a == s * s / k,
            s > 0real,
    ;
    assert(abs(clothoid.alpha(s)) == a);
    let r = clothoid.end_radius;
    let l = clothoid.length();
    lemma_length_positive(clothoid);
    let increment = l / r / 2real * 180real / pi;
    assert((r > 0real ==> increment > 0real) && (r < 0real ==> increment < 0real))
        by (nonlinear_arith)
        requires
            increment == l / r / 2real * 180real / pi,
            l > 0real,
            pi > 0real,
            r != 0real,
    ;
    if s * s <= k {
        lemma_origin(clothoid);
        lemma_x_increasing(clothoid, 0real, s, 3real);
        lemma_y_sum_lower_bound(a);
        let sum = y_sum(a, NUMITER as nat);
        assert(s * sum > 0real) by (nonlinear_arith)
            requires
                s > 0real,
                sum > 0real,
        ;
    }
}

/// The setback is never negative, as long as the deflection angle at the
/// end of the clothoid stays within one radian, that is for `A^2 <= 2 R^2`.
///
/// All that is asked of the cosine is that it is at least
/// `1 - alpha^2 / 2`, as the cosine of every angle is.
pub proof fn lemma_retranqueo_not_negative(clothoid: Clothoid, cosine: real)
    requires
        clothoid.valid(),
        clothoid.parameter * clothoid.parameter <= 2real * clothoid.end_radius
            * clothoid.end_radius,
        cosine >= 1real - clothoid.alpha(clothoid.length()) * clothoid.alpha(clothoid.length())
            / 2real,
    ensures
        clothoid.retranqueo(cosine) >= 0real,
{
    let p = clothoid.parameter * clothoid.parameter;
    let r = abs(clothoid.end_radius);
    let length = clothoid.length();
    let a = abs(clothoid.alpha(length));
    assert(r * r == clothoid.end_radius * clothoid.end_radius) by (nonlinear_arith)
        requires
            r == clothoid.end_radius || r == -clothoid.end_radius,
    ;
    assert(p > 0real) by (nonlinear_arith)
        requires
            p == clothoid.parameter * clothoid.parameter,
            clothoid.parameter > 0real,
    ;
    assert(length > 0real && length * r == p) by (nonlinear_arith)
        requires
            length == p / r,
            p > 0real,
            r > 0real,
    ;
    let k = 2real * clothoid.parameter * clothoid.parameter;
    assert(k == 2real * p && 2real * clothoid.end_radius * clothoid.end_radius == 2real * (r * r))
        by (nonlinear_arith)
        requires
            k == 2real * clothoid.parameter * clothoid.parameter,
            p == clothoid.parameter * clothoid.parameter,
            r * r == clothoid.end_radius * clothoid.end_radius,
    ;
    let magnitude = length * length / k;
    assert(magnitude >= 0real) by (nonlinear_arith)
        requires
            magnitude == length * length / k,
            k > 0real,
    ;
    assert(a == length * length / (2real * p));
    assert(0real < a <= 1real && 2real * (r * a) == length) by (nonlinear_arith)
        requires
            a == length * length / (2real * p),
            length * r == p,
            length > 0real,
            r > 0real,
            p > 0real,
            p <= 2real * (r * r),
    ;
    lemma_y_sum_lower_bound(a);
    let sum = y_sum(a, NUMITER as nat);
    assert(abs(clothoid.y(length)) == length * sum) by {
        assert(length * sum > 0real) by (nonlinear_arith)
            requires
                length > 0real,
                sum > 0real,
        ;
    }
    let alpha = clothoid.alpha(length);
    assert(alpha * alpha == a * a) by (nonlinear_arith)
        requires
            alpha == a || alpha == -a,
    ;
    assert(length * sum >= r * (1real - cosine)) by (nonlinear_arith)
        requires
            4real * sum >= a,
            cosine >= 1real - a * a / 2real,
            2real * (r * a) == length,
            length > 0real,
            r > 0real,
            0real < a <= 1real,
    ;
}

/// The sum of the `y` series is at least a quarter of the deflection
/// angle, as long as that is positive and within one radian.
proof fn lemma_y_sum_lower_bound(a: real)
    requires
        0real < a <= 1real,
    ensures
        4real * y_sum(a, NUMITER as nat) >= a,
        y_sum(a, NUMITER as nat) > 0real,
{
    reveal_with_fuel(y_sum, 7);
    lemma_y_pair_positive(a, 2);
    lemma_y_pair_positive(a, 4);
    lemma_y_divisor_table();
    assert(NUMITER == 6);
    let t0 = y_term_value(a, 0);
    let t1 = y_term_value(a, 1);
    assert(y_sum(a, 6) == 0real + t0 + t1 + y_term_value(a, 2) + y_term_value(a, 3)
        + y_term_value(a, 4) + y_term_value(a, 5));
    lemma_power_shrinks(a, 0);
    lemma_power_positive(a, 1);
    lemma_power_shrinks(a, 1);
    lemma_power_positive(a, 2);
    lemma_power_shrinks(a, 2);
    lemma_power_positive(a, 3);
    assert(power(a, 1) == a) by {
        reveal_with_fuel(power, 2);
        assert(a * 1real == a) by (nonlinear_arith);
    }
    let cube = power(a, 3);
    assert(cube <= a);
    assert(t0 == a / 3real);
    assert(t1 == -(cube / 42real));
}

/// Monotonicity: as long as the deflection angle stays within a right
/// angle, the abscissa grows strictly with the arc length.
///
/// The right angle is `pi / 2` for every value of `pi` that is not above
/// 3.141592654, as the number pi is not. A little beyond a right angle the
/// truncated series turns back: with the parameter 1 the abscissa is
/// smaller at the arc length 2 than at 1.9.
pub proof fn lemma_x_increasing(clothoid: Clothoid, s1: real, s2: real, pi: real)
    requires
        clothoid.parameter != 0real,
        0real <= s1 < s2,
        pi <= 3141592654real / 1000000000real,
        abs(clothoid.alpha(s2)) <= pi / 2real,
    ensures
        clothoid.x(s1) < clothoid.x(s2),
{
    let k = 2real * clothoid.parameter * clothoid.parameter;
    assert(k > 0real) by (nonlinear_arith)
        requires
            k == 2real * clothoid.parameter * clothoid.parameter,
            clothoid.parameter != 0real,
    ;
    let a1 = s1 * s1 / k;
    let a2 = s2 * s2 / k;
    assert(0real <= a1 && 0real <= a2) by (nonlinear_arith)
        requires
            a1 == s1 * s1 / k,
            a2 == s2 * s2 / k,
            k > 0real,
    ;
    assert(abs(clothoid.alpha(s1)) == a1);
    assert(abs(clothoid.alpha(s2)) == a2);
    let right_angle = 1570796327real / 1000000000real;
    assert(a2 <= right_angle);
    assert(a2 * a2 <= right_angle * right_angle) by (nonlinear_arith)
        requires
            0real <= a2 <= right_angle,
    ;
    assert(right_angle * right_angle <= square_limit());
    assert(NUMITER + 1 == 7);
    lemma_abscissa_grows(k, s1, s2);
}

/// Each term of the `y` series that is added outweighs the term that is
/// subtracted after it, as long as the deflection angle is positive and
/// within one radian.
proof fn lemma_y_pair_positive(a: real, n: nat)
    requires
        0real < a <= 1real,
        n < 6,
    ensures
        power(a, 2 * n + 1) / (y_divisor(n) as real) > power(a, 2 * n + 3) / (y_divisor(n + 1)
            as real),
        power(a, 2 * n + 3) / (y_divisor(n + 1) as real) > 0real,
{
    lemma_y_divisor_table();
    lemma_power_shrinks(a, 2 * n + 1);
    lemma_power_positive(a, 2 * n + 2);
    lemma_power_shrinks(a, 2 * n + 2);
    lemma_power_positive(a, 2 * n + 3);
    let p = power(a, 2 * n + 1);
    let q = power(a, 2 * n + 3);
    let d = y_divisor(n) as real;
    let e = y_divisor(n + 1) as real;
    assert(0real < d < e) by {
        if n == 0 {
            assert(d == 3real && e == 42real);
        } else if n == 1 {
            assert(d == 42real && e == 1320real);
        } else if n == 2 {
            assert(d == 1320real && e == 75600real);
        } else if n == 3 {
            assert(d == 75600real && e == 6894720real);
        } else if n == 4 {
            assert(d == 6894720real && e == 918086400real);
        } else {
            assert(d == 918086400real && e == 168129561600real);
        }
    }
    assert(p / d > q / e && q / e > 0real) by (nonlinear_arith)
        requires
            0real < q <= p,
            0real < d < e,
    ;
}

} // verus!
