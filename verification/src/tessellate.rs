//! From samples to a mesh: adjacent samples become segments, segments are
//! classified and packed.
//!
//! A sample whose value is not a finite number cannot be drawn. The two
//! segments that touch it are left out of the mesh; the others are drawn as
//! if nothing had happened.

use vstd::prelude::*;
use crate::classify::{classify, kind_of, Bend};
use crate::geometry::{Frame, Point, Segment};
use crate::mesh::{
    control_row, lemma_controls, lemma_ends_verbatim, lemma_packed_well_formed, packed, CurveMesh,
    MeshError, MAX_SEGMENTS,
};

verus! {

/// One sample of a curve in world space, with the x positions that a quad
/// starting or ending at the sample reaches out to.
#[derive(Clone, Copy, Debug)]
pub struct Sample<S> {
    /// The sampled point.
    pub point: Point<S>,
    /// The x of the point less the padding: the left edge of the quad of the
    /// segment that starts here.
    pub left: S,
    /// The x of the point plus the padding: the right edge of the quad of the
    /// segment that ends here.
    pub right: S,
    /// Whether both coordinates of the point are finite numbers.
    pub finite: bool,
}

/// Why a curve could not be tessellated.
#[derive(Clone, Copy, Debug, PartialEq, Eq)]
pub enum TessellateError {
    /// Fewer than two samples: there is no segment.
    TooFewSamples,
    /// The number of bends is not the number of pairs of adjacent samples.
    BendCount,
    /// More segments than a mesh can hold.
    TooManySegments,
}

/// The segment from `from` to `to`.
pub open spec fn segment_between<S>(from: Sample<S>, to: Sample<S>, bend: Bend<S>) -> Segment<S> {
    Segment {
        start: from.point,
        end: to.point,
        left: from.left,
        right: to.right,
        kind: kind_of(bend),
    }
}

/// Whether the span from sample `k` to sample `k + 1` can be drawn: both
/// samples are finite.
pub open spec fn drawable<S>(samples: Seq<Sample<S>>, k: int) -> bool {
    samples[k].finite && samples[k + 1].finite
}

/// Whether every sample is finite.
pub open spec fn all_finite<S>(samples: Seq<Sample<S>>) -> bool {
    forall|k: int| 0 <= k < samples.len() ==> (#[trigger] samples[k]).finite
}

/// The span from sample `k` to sample `k + 1`, classified by bend `k`.
pub open spec fn span<S>(samples: Seq<Sample<S>>, bends: Seq<Bend<S>>, k: int) -> Segment<S> {
    segment_between(samples[k], samples[k + 1], bends[k])
}

/// The segments among the first `n` spans of a sampled curve: in their
/// order, those that can be drawn.
pub open spec fn segments_among<S>(samples: Seq<Sample<S>>, bends: Seq<Bend<S>>, n: int) -> Seq<
    Segment<S>,
>
    decreases n,
{
    if n <= 0 {
        Seq::empty()
    } else if drawable(samples, n - 1) {
        segments_among(samples, bends, n - 1).push(span(samples, bends, n - 1))
    } else {
        segments_among(samples, bends, n - 1)
    }
}

/// The segments of a sampled curve: of the spans between adjacent samples,
/// those that can be drawn.
pub open spec fn segments_of<S>(samples: Seq<Sample<S>>, bends: Seq<Bend<S>>) -> Seq<Segment<S>> {
    segments_among(samples, bends, samples.len() - 1)
}

/// How many of the first `n` spans of a sampled curve can be drawn.
pub open spec fn drawable_among<S>(samples: Seq<Sample<S>>, n: int) -> nat
    decreases n,
{
    if n <= 0 {
        0
    } else if drawable(samples, n - 1) {
        drawable_among(samples, n - 1) + 1
    } else {
        drawable_among(samples, n - 1)
    }
}

/// The error that `tessellate` reports for a curve, if any.
pub open spec fn rejection<S>(samples: Seq<Sample<S>>, bends: Seq<Bend<S>>) -> Option<
    TessellateError,
> {
    if samples.len() < 2 {
        Some(TessellateError::TooFewSamples)
    } else if bends.len() != samples.len() - 1 {
        Some(TessellateError::BendCount)
    } else if segments_of(samples, bends).len() > MAX_SEGMENTS {
        Some(TessellateError::TooManySegments)
    } else {
        None
    }
}

/// There are as many segments as spans that can be drawn, whatever the
/// bends are, and so at most as many as spans.
pub proof fn lemma_segments_bounded<S>(samples: Seq<Sample<S>>, bends: Seq<Bend<S>>, n: int)
    ensures
        segments_among(samples, bends, n).len() == drawable_among(samples, n),
        segments_among(samples, bends, n).len() <= if n >= 0 {
            n
        } else {
            0
        },
    decreases n,
{
    if n > 0 {
        lemma_segments_bounded(samples, bends, n - 1);
    }
}

/// Where the first `n + 1` samples are finite, every one of the first `n`
/// spans is a segment: segment `k` runs from sample `k` to sample `k + 1`.
pub proof fn lemma_finite_spans_are_segments<S>(
    samples: Seq<Sample<S>>,
    bends: Seq<Bend<S>>,
    n: int,
)
    requires
        0 <= n < samples.len(),
        forall|k: int| 0 <= k <= n ==> (#[trigger] samples[k]).finite,
    ensures
        segments_among(samples, bends, n) == Seq::new(n as nat, |k: int| span(samples, bends, k)),
    decreases n,
{
    if n > 0 {
        lemma_finite_spans_are_segments(samples, bends, n - 1);
        assert(samples[n - 1].finite && samples[n].finite);
    }
    assert(segments_among(samples, bends, n) =~= Seq::new(
        n as nat,
        |k: int| span(samples, bends, k),
    ));
}

/// A curve of `n` finite samples has `n - 1` segments, and its mesh four
/// vertices and six indices for each of them.
pub proof fn lemma_mesh_counts<S>(samples: Seq<Sample<S>>, bends: Seq<Bend<S>>, frame: Frame<S>)
    requires
        samples.len() >= 1,
        all_finite(samples),
    ensures
        segments_of(samples, bends).len() == samples.len() - 1,
        packed(segments_of(samples, bends), frame).positions.len() == 4 * (samples.len() - 1),
        packed(segments_of(samples, bends), frame).indices.len() == 6 * (samples.len() - 1),
{
    lemma_finite_spans_are_segments(samples, bends, samples.len() - 1);
}

/// Whatever the samples are, the mesh of a curve has four vertices and six
/// indices per segment, no more segments than there are pairs of adjacent
/// samples, and no index that points outside its vertices.
pub proof fn lemma_mesh_well_formed<S>(samples: Seq<Sample<S>>, bends: Seq<Bend<S>>, frame: Frame<S>)
    ensures
        packed(segments_of(samples, bends), frame).well_formed(),
        packed(segments_of(samples, bends), frame).positions.len() == 4 * segments_of(
            samples,
            bends,
        ).len(),
        packed(segments_of(samples, bends), frame).indices.len() == 6 * segments_of(
            samples,
            bends,
        ).len(),
        samples.len() >= 1 ==> segments_of(samples, bends).len() <= samples.len() - 1,
        samples.len() == 0 ==> segments_of(samples, bends).len() == 0,
{
    lemma_packed_well_formed(segments_of(samples, bends), frame);
    lemma_segments_bounded(samples, bends, samples.len() - 1);
}

/// In the mesh of a curve of finite samples, each of the four vertices of
/// segment `k` carries the points of sample `k` and of sample `k + 1` as
/// they were given, whether the segment is a line or a bezier.
pub proof fn lemma_ends_are_the_samples<S>(
    samples: Seq<Sample<S>>,
    bends: Seq<Bend<S>>,
    frame: Frame<S>,
    k: int,
    j: int,
)
    requires
        all_finite(samples),
        0 <= k < samples.len() - 1,
        0 <= j < 4,
    ensures
        packed(segments_of(samples, bends), frame).ends[4 * k + j] == seq![
            samples[k].point.x,
            samples[k].point.y,
            samples[k + 1].point.x,
            samples[k + 1].point.y,
        ],
{
    lemma_finite_spans_are_segments(samples, bends, samples.len() - 1);
    lemma_ends_verbatim(segments_of(samples, bends), frame, k, j);
}

/// In the mesh of a curve of finite samples, the vertices of segment `k`
/// carry the crossing of the tangent lines where the segment is curved and
/// the lines cross, the sentinel in every other case, and the flag of the
/// last segment exactly on the final segment.
pub proof fn lemma_controls_follow_the_bends<S>(
    samples: Seq<Sample<S>>,
    bends: Seq<Bend<S>>,
    frame: Frame<S>,
    k: int,
    j: int,
)
    requires
        all_finite(samples),
        0 <= k < samples.len() - 1,
        0 <= j < 4,
    ensures
        packed(segments_of(samples, bends), frame).controls[4 * k + j] == {
            let c = if bends[k].curved && bends[k].crossing is Some {
                bends[k].crossing->0
            } else {
                frame.sentinel
            };
            let f = if k == samples.len() - 2 {
                frame.last
            } else {
                frame.inner
            };
            seq![c.x, c.y, f, f]
        },
{
    lemma_finite_spans_are_segments(samples, bends, samples.len() - 1);
    let segs = segments_of(samples, bends);
    lemma_controls(segs, frame, k, j);
    assert((4 * k + j) / 4 == k);
    assert(packed(segs, frame).controls[4 * k + j] =~= control_row(
        segs[k],
        frame,
        k == segs.len() - 1,
    ));
}

/// Builds the segment between two adjacent samples.
pub fn connect<S: Copy>(from: &Sample<S>, to: &Sample<S>, bend: &Bend<S>) -> (seg: Segment<S>)
    ensures
        seg == segment_between(*from, *to, *bend),
{
    Segment {
        start: from.point,
        end: to.point,
        left: from.left,
        right: to.right,
        kind: classify(bend),
    }
}

/// Counts the segments of a sampled curve: the pairs of adjacent samples
/// that are both finite.
pub fn count_segments<S: Copy>(samples: &Vec<Sample<S>>) -> (n: usize)
    ensures
        n == drawable_among(samples@, samples.len() - 1),
        forall|bends: Seq<Bend<S>>| n == (#[trigger] segments_of(samples@, bends)).len(),
{
    let mut n: usize = 0;
    let mut k: usize = 1;
    while k < samples.len()
        invariant
            1 <= k,
            k <= samples.len() || k == 1,
            n == drawable_among(samples@, k - 1),
            n < k,
        decreases samples.len() - k,
    {
        if samples[k - 1].finite && samples[k].finite {
            n = n + 1;
        }
        k = k + 1;
    }
    proof {
        if samples.len() == 0 {
            assert(drawable_among(samples@, 0) == drawable_among(samples@, -1));
        }
        assert forall|bends: Seq<Bend<S>>| n == (#[trigger] segments_of(samples@, bends)).len() by {
            lemma_segments_bounded(samples@, bends, samples.len() - 1);
        }
    }
    n
}

/// Builds the segments of a sampled curve. `None` is returned when the bends
/// do not match the pairs of adjacent samples one to one.
pub fn segments<S: Copy>(samples: &Vec<Sample<S>>, bends: &Vec<Bend<S>>) -> (r: Option<
    Vec<Segment<S>>,
>)
    ensures
        r is Some <==> bends.len() + 1 == samples.len() || (samples.len() == 0 && bends.len()
            == 0),
        r matches Some(segs) ==> segs@ == segments_of(samples@, bends@),
{
    let n: usize = bends.len();
    if samples.len() == 0 {
        if n == 0 {
            return Some(Vec::new());
        }
        return None;
    }
    if samples.len() - 1 != n {
        return None;
    }
    let mut segs: Vec<Segment<S>> = Vec::new();
    let mut k: usize = 0;
    while k < n
        invariant
            n == bends.len(),
            samples.len() == n + 1,
            k <= n,
            segs@ == segments_among(samples@, bends@, k as int),
        decreases n - k,
    {
        if samples[k].finite && samples[k + 1].finite {
            segs.push(connect(&samples[k], &samples[k + 1], &bends[k]));
        }
        k = k + 1;
    }
    Some(segs)
}

/// Tessellates a sampled curve: one quad per pair of adjacent finite
/// samples, the final one flagged as last.
///
/// Needs at least two samples and one bend per pair of adjacent samples.
pub fn tessellate<S: Copy>(samples: &Vec<Sample<S>>, bends: &Vec<Bend<S>>, frame: &Frame<S>) -> (r:
    Result<CurveMesh<S>, TessellateError>)
    ensures
        match r {
            Ok(mesh) => {
                &&& rejection(samples@, bends@) is None
                &&& mesh@ == packed(segments_of(samples@, bends@), *frame)
                &&& all_finite(samples@) ==> mesh@.positions.len() == 4 * (samples.len() - 1)
                    && mesh@.indices.len() == 6 * (samples.len() - 1)
            },
            Err(e) => rejection(samples@, bends@) == Some(e),
        },
{
    if samples.len() < 2 {
        return Err(TessellateError::TooFewSamples);
    }
    if bends.len() > MAX_SEGMENTS && bends.len() == samples.len() - 1 && count_segments(samples)
        > MAX_SEGMENTS {
        // nothing is built of a curve that no mesh can hold
        return Err(TessellateError::TooManySegments);
    }
    match segments(samples, bends) {
        None => Err(TessellateError::BendCount),
        Some(segs) => match CurveMesh::pack(&segs, frame) {
            Ok(mesh) => {
                proof {
                    if all_finite(samples@) {
                        lemma_mesh_counts(samples@, bends@, *frame);
                    }
                }
                Ok(mesh)
            },
            Err(MeshError::TooManySegments) => Err(TessellateError::TooManySegments),
        },
    }
}

} // verus!
