//! A vector of the plane.

use vstd::prelude::*;
use vstd::std_specs::ops::NegSpec;
use vstd::std_specs::ops::SubSpec;
use crate::point::Point;

verus! {

/// A vector of the plane, over any scalar type.
#[derive(Debug)]
pub struct Vector<T> {
    pub vx: T,
    pub vy: T,
}

impl<T: Copy> Clone for Vector<T> {
    fn clone(&self) -> (vector: Self)
        ensures
            vector == *self,
    {
        *self
    }
}

impl<T: Copy> Copy for Vector<T> {

}

impl<T> Vector<T> {
    /// The vector with the components `vx` and `vy`.
    pub fn new(vx: T, vy: T) -> (vector: Self)
        ensures
            vector.vx == vx,
            vector.vy == vy,
    {
        Vector { vx, vy }
    }
}

impl<T: Copy + core::ops::Sub<Output = T>> Vector<T> {
    /// The vector that leads from `p1` to `p2`.
    ///
    /// The two differences must be defined for the scalar type: for an
    /// integer type they must not overflow.
    pub fn from_two_points(p1: Point<T>, p2: Point<T>) -> (vector: Self)
        requires
            p2.x.sub_req(p1.x),
            p2.y.sub_req(p1.y),
        ensures
            T::obeys_sub_spec() ==> vector.vx == p2.x.sub_spec(p1.x),
            T::obeys_sub_spec() ==> vector.vy == p2.y.sub_spec(p1.y),
    {
        Vector { vx: p2.x - p1.x, vy: p2.y - p1.y }
    }
}

impl<T: Copy + core::ops::Neg<Output = T>> Vector<T> {
    /// The vector turned by a quarter turn to the left (counter-clockwise):
    /// `(-vy, vx)`.
    ///
    /// The negation must be defined for the scalar type: for an integer type
    /// `vy` must not be the least value.
    pub fn left_normal_vector(&self) -> (normal: Self)
        requires
            self.vy.neg_req(),
        ensures
            T::obeys_neg_spec() ==> normal.vx == self.vy.neg_spec(),
            normal.vy == self.vx,
    {
        Vector { vx: self.vy.neg(), vy: self.vx }
    }

    /// The vector turned by a quarter turn to the right (clockwise):
    /// `(vy, -vx)`.
    ///
    /// The negation must be defined for the scalar type: for an integer type
    /// `vx` must not be the least value.
    pub fn right_normal_vector(&self) -> (normal: Self)
        requires
            self.vx.neg_req(),
        ensures
            normal.vx == self.vy,
            T::obeys_neg_spec() ==> normal.vy == self.vx.neg_spec(),
    {
        Vector { vx: self.vy, vy: self.vx.neg() }
    }
}

} // verus!
