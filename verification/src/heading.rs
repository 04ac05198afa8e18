//! The heading of a vector, from the signs of its components.
//!
//! The heading of a vector `(vx, vy)` is the angle from east to the vector,
//! counter-clockwise, in `[0, 2 * PI)`. The arctangent of `vy / vx` gives it
//! only up to a half turn, and not at all on the vertical axis. The signs of
//! the two components say which half turn to add.

use vstd::prelude::*;
use crate::sign::lemma_sign_arithmetic;
use crate::sign::Sign;

verus! {

/// How to obtain the heading of a vector.
#[derive(Clone, Copy, Debug, PartialEq, Eq, Structural)]
pub enum Heading {
    /// The vector lies on an axis, or is null. Its heading is
    /// `quarter_turns * PI / 2`: 0 for east and for the null vector, 1 for
    /// north, 2 for west, 3 for south.
    Axis { quarter_turns: u8 },
    /// The vector lies strictly inside a quadrant. Its heading is
    /// `half_turns * PI + atan(vy / vx)`.
    Oblique { half_turns: u8 },
}

/// The quadrant that holds a vector with components of the given signs,
/// neither of them zero: 0 for north-east, then counter-clockwise 1 for
/// north-west, 2 for south-west and 3 for south-east.
pub open spec fn quadrant(vx: Sign, vy: Sign) -> int
    recommends
        vx != Sign::Zero,
        vy != Sign::Zero,
{
    match (vx, vy) {
        (Sign::Positive, Sign::Negative) => 3,
        (Sign::Negative, Sign::Negative) => 2,
        (Sign::Negative, _) => 1,
        _ => 0,
    }
}

impl Heading {
    /// The number of the quarter turn in which the heading lies, for a
    /// heading that is strictly inside a quadrant: with `q` the result, the
    /// heading is above `q * PI / 2` and below `(q + 1) * PI / 2`.
    ///
    /// `arctangent` is the sign of `atan(vy / vx)`, which lies strictly
    /// inside `(-PI / 2, PI / 2)`: a positive one stays in the quarter turn
    /// that starts at `half_turns * PI`, a negative one falls into the
    /// quarter turn before it.
    pub open spec fn quarter(self, arctangent: Sign) -> int
        recommends
            self is Oblique,
            arctangent != Sign::Zero,
    {
        match self {
            Heading::Axis { quarter_turns } => quarter_turns as int,
            Heading::Oblique { half_turns } => if arctangent == Sign::Negative {
                2 * half_turns - 1
            } else {
                2 * half_turns as int
            },
        }
    }
}

impl Heading {
    /// The heading in radians, for the given value of `pi`, where
    /// `arctangent` is the arctangent of `vy / vx`.
    pub open spec fn angle(self, arctangent: real, pi: real) -> real {
        match self {
            Heading::Axis { quarter_turns } => quarter_turns as real * pi / 2real,
            Heading::Oblique { half_turns } => half_turns as real * pi + arctangent,
        }
    }
}

/// The heading of a vector whose components have the given signs.
pub open spec fn spec_heading(vx: Sign, vy: Sign) -> Heading {
    match (vx, vy) {
        (Sign::Zero, Sign::Positive) => Heading::Axis { quarter_turns: 1 },
        (Sign::Zero, Sign::Negative) => Heading::Axis { quarter_turns: 3 },
        (Sign::Negative, Sign::Zero) => Heading::Axis { quarter_turns: 2 },
        (Sign::Zero, Sign::Zero) | (Sign::Positive, Sign::Zero) => Heading::Axis {
            quarter_turns: 0,
        },
        (Sign::Positive, Sign::Positive) => Heading::Oblique { half_turns: 0 },
        (Sign::Negative, _) => Heading::Oblique { half_turns: 1 },
        (Sign::Positive, Sign::Negative) => Heading::Oblique { half_turns: 2 },
    }
}

/// Says how to obtain the heading of a vector from the signs of its
/// components.
///
/// Both signs are taken with the caller's tolerance, so that a vector that
/// is nearly parallel to an axis is treated as parallel to it, and its
/// quotient `vy / vx` is never formed.
///
/// A heading on an axis is a whole number of quarter turns below four. A
/// heading inside a quadrant lies in the quadrant of the vector, whatever
/// the value of the arctangent: the arctangent has the sign of `vx * vy`.
pub fn heading(vx: Sign, vy: Sign) -> (result: Heading)
    ensures
        result == spec_heading(vx, vy),
        result is Axis <==> vx == Sign::Zero || vy == Sign::Zero,
        result matches Heading::Axis { quarter_turns } ==> quarter_turns < 4,
        result is Oblique ==> result.quarter(vx.times(vy)) == quadrant(vx, vy),
{
    match (vx, vy) {
        (Sign::Zero, Sign::Positive) => Heading::Axis { quarter_turns: 1 },
        (Sign::Zero, Sign::Negative) => Heading::Axis { quarter_turns: 3 },
        (Sign::Negative, Sign::Zero) => Heading::Axis { quarter_turns: 2 },
        (_, Sign::Zero) => Heading::Axis { quarter_turns: 0 },
        (Sign::Positive, Sign::Positive) => Heading::Oblique { half_turns: 0 },
        (Sign::Negative, _) => Heading::Oblique { half_turns: 1 },
        (Sign::Positive, Sign::Negative) => Heading::Oblique { half_turns: 2 },
    }
}

/// The heading of every vector lies in `[0, 2 * pi)`, and that of a
/// vector inside a quadrant lies inside the same quadrant: above `q * pi / 2`
/// and below `(q + 1) * pi / 2` for the quadrant number `q`.
///
/// All that is asked of the arctangent is that it lies strictly between
/// `-pi / 2` and `pi / 2` and has the sign of its argument `vy / vx`.
pub proof fn lemma_heading_angle(vx: real, vy: real, tolerance: real, arctangent: real, pi: real)
    requires
        tolerance >= 0real,
        pi > 0real,
        -(pi / 2real) < arctangent < pi / 2real,
        vx != 0real ==> Sign::of(arctangent) == Sign::of(vy / vx),
    ensures
        ({
            let way = spec_heading(Sign::within(vx, tolerance), Sign::within(vy, tolerance));
            let angle = way.angle(arctangent, pi);
            let q = quadrant(Sign::of(vx), Sign::of(vy)) as real;
            &&& 0real <= angle < 2real * pi
            &&& way is Oblique ==> q * pi / 2real < angle < (q + 1real) * pi / 2real
        }),
{
    lemma_sign_arithmetic(vy, vx);
    let way = spec_heading(Sign::within(vx, tolerance), Sign::within(vy, tolerance));
    let q = quadrant(Sign::of(vx), Sign::of(vy)) as real;
    assert(0real * pi / 2real == 0real && 1real * pi / 2real == pi / 2real && 2real * pi / 2real
        == pi && 3real * pi / 2real == pi + pi / 2real && 4real * pi / 2real == 2real * pi
        && 0real * pi == 0real && 1real * pi == pi) by (nonlinear_arith);
    if way is Oblique {
        assert(q == 0real || q == 1real || q == 2real || q == 3real);
    }
}

} // verus!
