//! A point of the plane.

use vstd::prelude::*;
use vstd::std_specs::ops::AddSpec;

verus! {

/// A point of the plane, over any scalar type.
#[derive(Debug)]
pub struct Point<T> {
    pub x: T,
    pub y: T,
}

impl<T: Copy> Clone for Point<T> {
    fn clone(&self) -> (point: Self)
        ensures
            point == *self,
    {
        *self
    }
}

impl<T: Copy> Copy for Point<T> {

}

impl<T> Point<T> {
    /// The point with the coordinates `x` and `y`.
    pub fn new(x: T, y: T) -> (point: Self)
        ensures
            point.x == x,
            point.y == y,
    {
        Point { x, y }
    }
}

impl<T: Copy + core::ops::Add<Output = T>> Point<T> {
    /// The point moved by `incx` along the first axis and by `incy` along the
    /// second. It is the coordinates that are moved, not the axes.
    ///
    /// The two sums must be defined for the scalar type: for an integer type
    /// they must not overflow.
    pub fn traslate_axis(&self, incx: T, incy: T) -> (point: Self)
        requires
            self.x.add_req(incx),
            self.y.add_req(incy),
        ensures
            T::obeys_add_spec() ==> point.x == self.x.add_spec(incx),
            T::obeys_add_spec() ==> point.y == self.y.add_spec(incy),
    {
        Point { x: self.x + incx, y: self.y + incy }
    }
}

} // verus!
