//! The segment classifier and the fallback of the control-point solver.
//!
//! Whether two tangents differ enough, and where their lines cross, is
//! numeric work that the caller does. What follows from the two answers is
//! decided here.

use vstd::prelude::*;
use crate::geometry::{Point, SegmentKind};

verus! {

/// What the tangents at the two ends of a segment say about it.
#[derive(Clone, Copy, Debug)]
pub struct Bend<S> {
    /// The tangent direction changes by more than the threshold angle: the
    /// absolute cosine between the two tangents is below the threshold.
    pub curved: bool,
    /// Where the two tangent lines cross; `None` when they are parallel.
    pub crossing: Option<Point<S>>,
}

/// The kind of a segment: a bezier through the crossing of its tangent lines
/// when it is curved and the lines do cross, a line in every other case. A
/// curved segment with parallel tangents is degenerate and drawn as a line.
pub open spec fn kind_of<S>(bend: Bend<S>) -> SegmentKind<S> {
    match bend.crossing {
        Some(control) if bend.curved => SegmentKind::Bezier { control },
        _ => SegmentKind::Line,
    }
}

/// Classifies one segment.
pub fn classify<S: Copy>(bend: &Bend<S>) -> (kind: SegmentKind<S>)
    ensures
        kind == kind_of(*bend),
{
    if bend.curved {
        match bend.crossing {
            Some(control) => SegmentKind::Bezier { control },
            None => SegmentKind::Line,
        }
    } else {
        SegmentKind::Line
    }
}

/// A segment is a bezier exactly when it is curved and its tangent lines
/// cross, and its control point is then that crossing.
pub proof fn lemma_bezier_iff_curved_and_crossing<S>(bend: Bend<S>)
    ensures
        kind_of(bend) is Bezier <==> bend.curved && bend.crossing is Some,
        kind_of(bend) is Bezier ==> kind_of(bend)->control == bend.crossing->0,
        !bend.curved ==> kind_of(bend) is Line,
        bend.crossing is None ==> kind_of(bend) is Line,
{
}

} // verus!
