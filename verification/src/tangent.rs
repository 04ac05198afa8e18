//! The tangent over the real numbers.
//!
//! A tangent is a straight section. Its direction of travel is given as a
//! unit vector, the cosine and the sine of its angle.

use vstd::prelude::*;
use crate::error::GeometryError;

verus! {

/// The point at the arc length `s` of a tangent of the given length that
/// leaves the point `start` in the direction of the unit vector
/// `direction`. It is refused for an arc length that is negative or beyond
/// the length of the tangent.
pub open spec fn tangent_point_at_s(
    start: (real, real),
    direction: (real, real),
    length: real,
    s: real,
) -> Result<(real, real), GeometryError> {
    if s < 0real || s > length {
        Err(GeometryError::OutOfRange)
    } else {
        Ok((start.0 + s * direction.0, start.1 + s * direction.1))
    }
}

/// Along a tangent the arc length is the distance from the start point:
/// the tangent starts at its start point, and its point at `s` lies `s`
/// ahead of it and neither to the left nor to the right.
pub proof fn lemma_tangent_point(
    start: (real, real),
    direction: (real, real),
    length: real,
    s: real,
)
    requires
        direction.0 * direction.0 + direction.1 * direction.1 == 1real,
        0real <= s <= length,
    ensures
        tangent_point_at_s(start, direction, length, 0real) == Ok::<(real, real), GeometryError>(
            start,
        ),
        tangent_point_at_s(start, direction, length, s) is Ok,
        ({
            let point = tangent_point_at_s(start, direction, length, s).unwrap();
            let moved = (point.0 - start.0, point.1 - start.1);
            &&& moved.0 * direction.0 + moved.1 * direction.1 == s
            &&& direction.0 * moved.1 - direction.1 * moved.0 == 0real
            &&& moved.0 * moved.0 + moved.1 * moved.1 == s * s
        }),
{
    let dx = direction.0;
    let dy = direction.1;
    assert(0real * dx == 0real && 0real * dy == 0real) by (nonlinear_arith);
    assert((s * dx) * dx + (s * dy) * dy == s && dx * (s * dy) - dy * (s * dx) == 0real && (s
        * dx) * (s * dx) + (s * dy) * (s * dy) == s * s) by (nonlinear_arith)
        requires
            dx * dx + dy * dy == 1real,
    ;
}

} // verus!
