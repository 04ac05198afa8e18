//! The horizontal alignment: the axis of a road as a chain of sections.

use vstd::prelude::*;

verus! {

/// A section of an alignment, reduced to what is needed to rebuild it once
/// its start point and start azimuth are known: its two radii and its length.
///
/// A radius of zero stands for an infinite radius. Two radii of zero make a
/// tangent, two equal radii a circular arc, one radius of zero a clothoid
/// transition.
#[derive(Debug)]
pub struct HAlignmentSummarized<T> {
    pub start_radius: T,
    pub end_radius: T,
    pub length: T,
}

impl<T: Copy> Clone for HAlignmentSummarized<T> {
    fn clone(&self) -> (section: Self)
        ensures
            section == *self,
    {
        *self
    }
}

impl<T: Copy> Copy for HAlignmentSummarized<T> {

}

/// The axis of a road: a start point, a start azimuth and the sections that
/// follow from there, each one starting where the one before it ends.
///
/// A section carries neither a position nor a direction of its own, so the
/// chain cannot be broken: every section starts at the end point of the one
/// before it, with its end azimuth. Sections are added at the end and are
/// never removed or changed.
pub struct HAlignment<T> {
    /// First coordinate of the start point.
    pub start_x: T,
    /// Second coordinate of the start point.
    pub start_y: T,
    /// Azimuth at the start point, in degrees.
    pub start_azimuth: T,
    /// The sections, from the start of the road to its end.
    pub sections: Vec<HAlignmentSummarized<T>>,
}

impl<T> View for HAlignment<T> {
    type V = Seq<HAlignmentSummarized<T>>;

    /// The sections of the alignment, in the order of travel.
    open spec fn view(&self) -> Seq<HAlignmentSummarized<T>> {
        self.sections@
    }
}

impl<T> HAlignment<T> {
    /// An alignment without sections that starts at `(start_x, start_y)` with
    /// the azimuth `start_azimuth`.
    pub fn new(start_x: T, start_y: T, start_azimuth: T) -> (alignment: Self)
        ensures
            alignment.start_x == start_x,
            alignment.start_y == start_y,
            alignment.start_azimuth == start_azimuth,
            alignment@ == Seq::<HAlignmentSummarized<T>>::empty(),
    {
        HAlignment { start_x, start_y, start_azimuth, sections: Vec::new() }
    }

    /// Adds a section at the end of the alignment. Nothing else changes.
    pub fn add(&mut self, section: HAlignmentSummarized<T>)
        ensures
            final(self)@ == old(self)@.push(section),
            final(self).start_x == old(self).start_x,
            final(self).start_y == old(self).start_y,
            final(self).start_azimuth == old(self).start_azimuth,
    {
        self.sections.push(section);
    }

    /// The number of sections.
    pub fn len(&self) -> (count: usize)
        ensures
            count == self@.len(),
    {
        self.sections.len()
    }
}

} // verus!
