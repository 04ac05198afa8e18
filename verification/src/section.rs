//! The three kinds of section: tangent, circular arc and clothoid
//! transition.
//!
//! A radius of zero stands for an infinite radius, that is for a straight
//! line. A positive radius is a curve to the right, a negative one a curve to
//! the left.
//!
//! These are the rules that a caller runs before it computes: whether the
//! numbers describe a section, whether an arc length lies on it, on which
//! side a centre lies. Where the sections run is said, over the real numbers,
//! in [`crate::tangent`], [`crate::arc`] and [`crate::transition`].

use vstd::prelude::*;
use crate::clothoid::Turn;
use crate::error::GeometryError;
use crate::sign::abs;
use crate::sign::Sign;

verus! {

/// A side of a direction of travel.
#[derive(Clone, Copy, Debug, PartialEq, Eq, Structural)]
pub enum Side {
    /// Counter-clockwise of the direction.
    Left,
    /// Clockwise of the direction.
    Right,
}

impl Side {
    /// The other side.
    pub open spec fn opposite(self) -> Side {
        match self {
            Side::Left => Side::Right,
            Side::Right => Side::Left,
        }
    }
}

/// How the canonical clothoid of a transition is laid onto the section.
#[derive(Clone, Copy, Debug, PartialEq, Eq, Structural)]
pub enum Placement {
    /// The section starts straight and ends on the circle: the origin of the
    /// clothoid is the start point of the section.
    Direct,
    /// The section starts on the circle and ends straight: the origin of the
    /// clothoid is the end point of the section, and the clothoid is run
    /// through backwards.
    Inverse,
}

/// Whether a length of this sign describes a tangent: it is positive.
pub open spec fn tangent_valid(length: Sign) -> bool {
    length == Sign::Positive
}

/// Whether a radius and a length of these signs describe a circular arc: the
/// radius is not zero and the length is not negative.
pub open spec fn arc_valid(radius: Sign, length: Sign) -> bool {
    radius != Sign::Zero && length != Sign::Negative
}

/// The placement that two radii of these signs give a transition, if they
/// give one: exactly one of them must be zero.
pub open spec fn transition_placement(start_radius: Sign, end_radius: Sign) -> Option<Placement> {
    if start_radius == Sign::Zero && end_radius != Sign::Zero {
        Some(Placement::Direct)
    } else if start_radius != Sign::Zero && end_radius == Sign::Zero {
        Some(Placement::Inverse)
    } else {
        None
    }
}

/// Whether two radii and a length of these signs describe a transition:
/// exactly one radius is zero and the length is not.
pub open spec fn transition_valid(start_radius: Sign, end_radius: Sign, length: Sign) -> bool {
    transition_placement(start_radius, end_radius).is_some() && length != Sign::Zero
}

/// Whether an arc length lies on a section, given the sign of the arc length
/// itself and the sign of what it exceeds the limit by.
pub open spec fn arc_length_in_range(s: Sign, excess: Sign) -> bool {
    s != Sign::Negative && excess != Sign::Positive
}

/// Decides whether a length describes a tangent.
///
/// The sign is taken with the caller's tolerance: a tangent too short to
/// tell from a point is refused like one of negative length.
pub fn check_tangent(length: Sign) -> (result: Result<(), GeometryError>)
    ensures
        tangent_valid(length) ==> result == Ok::<(), GeometryError>(()),
        !tangent_valid(length) ==> result == Err::<(), GeometryError>(
            GeometryError::InvalidGeometry,
        ),
{
    match length {
        Sign::Positive => Ok(()),
        _ => Err(GeometryError::InvalidGeometry),
    }
}

/// Decides whether a radius and a length describe a circular arc, and which
/// way it turns.
///
/// The sign of the radius is taken with the caller's tolerance, the sign of
/// the length exactly: an arc of length zero is a valid, empty arc.
pub fn check_arc(radius: Sign, length: Sign) -> (result: Result<Turn, GeometryError>)
    ensures
        arc_valid(radius, length) ==> result == Ok::<Turn, GeometryError>(
            Turn::spec_of_radius(radius).unwrap(),
        ),
        !arc_valid(radius, length) ==> result == Err::<Turn, GeometryError>(
            GeometryError::InvalidGeometry,
        ),
{
    match (Turn::of_radius(radius), length) {
        (None, _) => Err(GeometryError::InvalidGeometry),
        (Some(_), Sign::Negative) => Err(GeometryError::InvalidGeometry),
        (Some(turn), _) => Ok(turn),
    }
}

/// Decides whether two radii and a length describe a clothoid transition,
/// and how its clothoid is placed.
///
/// All three signs are taken with the caller's tolerance.
pub fn check_transition(start_radius: Sign, end_radius: Sign, length: Sign) -> (result: Result<
    Placement,
    GeometryError,
>)
    ensures
        transition_valid(start_radius, end_radius, length) ==> result == Ok::<
            Placement,
            GeometryError,
        >(transition_placement(start_radius, end_radius).unwrap()),
        !transition_valid(start_radius, end_radius, length) ==> result == Err::<
            Placement,
            GeometryError,
        >(GeometryError::InvalidGeometry),
        result == Ok::<Placement, GeometryError>(Placement::Direct) <==> start_radius == Sign::Zero
            && end_radius != Sign::Zero && length != Sign::Zero,
        result == Ok::<Placement, GeometryError>(Placement::Inverse) <==> start_radius
            != Sign::Zero && end_radius == Sign::Zero && length != Sign::Zero,
{
    let placement = match (start_radius, end_radius) {
        (Sign::Zero, Sign::Zero) => {
            return Err(GeometryError::InvalidGeometry);
        },
        (Sign::Zero, _) => Placement::Direct,
        (_, Sign::Zero) => Placement::Inverse,
        _ => {
            return Err(GeometryError::InvalidGeometry);
        },
    };
    match length {
        Sign::Zero => Err(GeometryError::InvalidGeometry),
        _ => Ok(placement),
    }
}

/// Decides whether an arc length `s` lies on a section.
///
/// `s` is the exact sign of the arc length. `excess` is the exact sign of
/// `s - limit`, where the limit is the length of the section or, for a query
/// on the azimuth of a circular arc, the length of its full circle.
pub fn check_arc_length(s: Sign, excess: Sign) -> (result: Result<(), GeometryError>)
    ensures
        arc_length_in_range(s, excess) ==> result == Ok::<(), GeometryError>(()),
        !arc_length_in_range(s, excess) ==> result == Err::<(), GeometryError>(
            GeometryError::OutOfRange,
        ),
{
    match (s, excess) {
        (Sign::Negative, _) => Err(GeometryError::OutOfRange),
        (_, Sign::Positive) => Err(GeometryError::OutOfRange),
        _ => Ok(()),
    }
}

impl Placement {
    /// The turn of the canonical clothoid of a transition whose circle turns
    /// as `circle` does. Placed inversely the clothoid is run through
    /// backwards, and a curve run through backwards turns the other way.
    pub open spec fn spec_clothoid_turn(self, circle: Turn) -> Turn {
        match self {
            Placement::Direct => circle,
            Placement::Inverse => circle.spec_opposite(),
        }
    }

    /// The radius of a transition at the point where it touches the circle:
    /// its end radius when it is placed directly, its start radius when it
    /// is placed inversely. The other radius is zero.
    pub fn circle_radius<T>(self, start_radius: T, end_radius: T) -> (radius: T)
        ensures
            self == Placement::Direct ==> radius == end_radius,
            self == Placement::Inverse ==> radius == start_radius,
    {
        match self {
            Placement::Direct => end_radius,
            Placement::Inverse => start_radius,
        }
    }

    /// The turn of the canonical clothoid, from the turn of the circle that
    /// the transition touches.
    #[verifier::when_used_as_spec(spec_clothoid_turn)]
    pub fn clothoid_turn(self, circle: Turn) -> (result: Turn)
        ensures
            result == self.spec_clothoid_turn(circle),
            self == Placement::Direct ==> result == circle,
            self == Placement::Inverse ==> result == circle.spec_opposite(),
    {
        match self {
            Placement::Direct => circle,
            Placement::Inverse => circle.opposite(),
        }
    }
}

/// The side of the start direction on which the centre of a circular arc
/// lies: the side to which the arc turns.
pub open spec fn spec_center_side(turn: Turn) -> Side {
    match turn {
        Turn::Left => Side::Left,
        Turn::Right => Side::Right,
    }
}

/// The side of the direction of travel to which the radius from the centre
/// to the current point of a circular arc points: the outside of the turn.
pub open spec fn spec_radial_side(turn: Turn) -> Side {
    match turn {
        Turn::Left => Side::Right,
        Turn::Right => Side::Left,
    }
}

/// The side of the start direction on which the centre of a circular arc
/// lies. The centre is at the distance of the radius along the normal to
/// that side.
#[verifier::when_used_as_spec(spec_center_side)]
pub fn center_side(turn: Turn) -> (side: Side)
    ensures
        side == spec_center_side(turn),
        side == Side::Right <==> turn == Turn::Right,
{
    match turn {
        Turn::Left => Side::Left,
        Turn::Right => Side::Right,
    }
}

/// The side of the direction of travel to which the radius from the centre
/// to the current point points. The point is at the distance of the radius
/// from the centre along the normal to that side.
#[verifier::when_used_as_spec(spec_radial_side)]
pub fn radial_side(turn: Turn) -> (side: Side)
    ensures
        side == spec_radial_side(turn),
        side == spec_center_side(turn).opposite(),
{
    match turn {
        Turn::Left => Side::Right,
        Turn::Right => Side::Left,
    }
}

/// What the rules accept, in terms of the numbers that the signs were taken
/// from: a tangent has a positive length, an arc a radius that is not zero
/// and a length that is not negative, a transition exactly one radius that
/// is not zero and a length that is not zero, and an arc length lies on a
/// section if it lies between zero and the limit.
///
/// A sign taken with a tolerance asks in addition that a number that must
/// not be zero is at least the tolerance away from zero, and lets a number
/// pass for zero that is closer to it than the tolerance.
pub proof fn lemma_checked_sections(
    start_radius: real,
    end_radius: real,
    length: real,
    s: real,
    limit: real,
    tolerance: real,
)
    requires
        tolerance >= 0real,
    ensures
        tangent_valid(Sign::within(length, tolerance)) <==> length > 0real && length >= tolerance,
        arc_valid(Sign::within(end_radius, tolerance), Sign::of(length)) <==> end_radius != 0real
            && abs(end_radius) >= tolerance && length >= 0real,
        arc_valid(Sign::within(end_radius, tolerance), Sign::of(length)) ==> Turn::spec_of_radius(
            Sign::within(end_radius, tolerance),
        ) == Some(
            if end_radius > 0real {
                Turn::Right
            } else {
                Turn::Left
            },
        ),
        transition_placement(Sign::of(start_radius), Sign::of(end_radius)) == Some(
            Placement::Direct,
        ) <==> start_radius == 0real && end_radius != 0real,
        transition_placement(Sign::of(start_radius), Sign::of(end_radius)) == Some(
            Placement::Inverse,
        ) <==> start_radius != 0real && end_radius == 0real,
        transition_valid(
            Sign::within(start_radius, tolerance),
            Sign::within(end_radius, tolerance),
            Sign::within(length, tolerance),
        ) ==> length != 0real && (start_radius != 0real || end_radius != 0real),
        arc_length_in_range(Sign::of(s), Sign::of(s - limit)) <==> 0real <= s <= limit,
{
}

} // verus!
