//! Points, classified segments and the constants of a plot's canvas.

use vstd::prelude::*;

verus! {

/// A point of the plane.
#[derive(Clone, Copy, Debug)]
pub struct Point<S> {
    pub x: S,
    pub y: S,
}

/// How the span between two adjacent samples is drawn.
#[derive(Clone, Copy, Debug)]
pub enum SegmentKind<S> {
    /// A straight line between the two end points.
    Line,
    /// A quadratic bezier curve through the two end points.
    Bezier { control: Point<S> },
}

/// The span between two adjacent samples, in world space.
#[derive(Clone, Copy, Debug)]
pub struct Segment<S> {
    /// The sample the segment starts at.
    pub start: Point<S>,
    /// The sample the segment ends at.
    pub end: Point<S>,
    /// World x of the left edge of the segment's quad: the start, moved out by the padding.
    pub left: S,
    /// World x of the right edge of the segment's quad: the end, moved out by the padding.
    pub right: S,
    /// Line or bezier.
    pub kind: SegmentKind<S>,
}

/// What every quad of one curve shares.
#[derive(Clone, Copy, Debug)]
pub struct Frame<S> {
    /// World y of the upper edge of the canvas.
    pub top: S,
    /// World y of the lower edge of the canvas.
    pub bottom: S,
    /// The z coordinate of every vertex.
    pub depth: S,
    /// The control point written for a line: a value no curve can reach.
    pub sentinel: Point<S>,
    /// The flag value of the final segment.
    pub last: S,
    /// The flag value of every other segment.
    pub inner: S,
}

impl<S> Segment<S> {
    /// The control point that is written into the mesh for this segment.
    pub open spec fn control_or(self, sentinel: Point<S>) -> Point<S> {
        match self.kind {
            SegmentKind::Line => sentinel,
            SegmentKind::Bezier { control } => control,
        }
    }
}

impl<S: Copy> Segment<S> {
    /// The control point of a bezier segment, `sentinel` for a line.
    pub fn control_point(&self, sentinel: Point<S>) -> (p: Point<S>)
        ensures
            p == self.control_or(sentinel),
    {
        match self.kind {
            SegmentKind::Line => sentinel,
            SegmentKind::Bezier { control } => control,
        }
    }
}

} // verus!
