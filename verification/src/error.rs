//! The two ways in which a request can be refused.

use vstd::prelude::*;

verus! {

/// Why a section was not built, or a query on it not answered.
///
/// Both kinds are faults of the caller's input. Nothing is clamped or
/// repaired.
#[derive(Clone, Copy, Debug, PartialEq, Eq, Structural)]
pub enum GeometryError {
    /// The parameters describe no section: a parameter that is zero or
    /// negative, a radius of zero, a length that is zero or negative, or a
    /// transition whose two radii are both zero or both not zero.
    InvalidGeometry,
    /// An arc length that lies before the start of the section, beyond its
    /// end, or, on a circular arc, beyond one full circle.
    OutOfRange,
}

} // verus!
