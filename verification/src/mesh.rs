//! The mesh packer: one quad of four vertices and two triangles per segment.
//!
//! Every vertex of a segment's quad carries the whole description of the
//! segment (its two end points, its control point and whether it is the last
//! one), so that a fragment shader can evaluate the exact curve inside the
//! quad. The quad itself is only a canvas for the shader: it spans the
//! segment's padded x-range and the full height of the plot.

use vstd::prelude::*;
use crate::geometry::{Frame, Segment};

verus! {

/// The largest number of segments whose vertices a 32-bit index can address.
pub const MAX_SEGMENTS: usize = 0x4000_0000;

/// The mathematical content of a [`CurveMesh`]: one row of coordinates per
/// vertex and attribute, and the triangle list.
pub struct MeshView<S> {
    /// x, y, z of each vertex.
    pub positions: Seq<Seq<S>>,
    /// x, y of each vertex, once more.
    pub uvs: Seq<Seq<S>>,
    /// The two end points of the segment that the vertex belongs to.
    pub ends: Seq<Seq<S>>,
    /// The control point of that segment and, twice, its flag.
    pub controls: Seq<Seq<S>>,
    /// Three vertex numbers per triangle.
    pub indices: Seq<int>,
}

/// World x of corner `j` of a segment's quad. Corners 0 and 1 are on the left
/// edge, corners 2 and 3 on the right edge.
pub open spec fn corner_x<S>(seg: Segment<S>, j: int) -> S {
    if j < 2 {
        seg.left
    } else {
        seg.right
    }
}

/// World y of corner `j` of a quad. Corners 0 and 2 are on the upper edge of
/// the canvas, corners 1 and 3 on the lower edge.
pub open spec fn corner_y<S>(frame: Frame<S>, j: int) -> S {
    if j % 2 == 0 {
        frame.top
    } else {
        frame.bottom
    }
}

/// The position attribute of corner `j` of a segment's quad.
pub open spec fn position_row<S>(seg: Segment<S>, frame: Frame<S>, j: int) -> Seq<S> {
    seq![corner_x(seg, j), corner_y(frame, j), frame.depth]
}

/// The uv attribute of corner `j` of a segment's quad.
pub open spec fn uv_row<S>(seg: Segment<S>, frame: Frame<S>, j: int) -> Seq<S> {
    seq![corner_x(seg, j), corner_y(frame, j)]
}

/// The ends attribute of every vertex of a segment.
pub open spec fn ends_row<S>(seg: Segment<S>) -> Seq<S> {
    seq![seg.start.x, seg.start.y, seg.end.x, seg.end.y]
}

/// The flag of a segment: `frame.last` for the final one, `frame.inner` else.
pub open spec fn flag<S>(frame: Frame<S>, is_last: bool) -> S {
    if is_last {
        frame.last
    } else {
        frame.inner
    }
}

/// The control attribute of every vertex of a segment.
pub open spec fn control_row<S>(seg: Segment<S>, frame: Frame<S>, is_last: bool) -> Seq<S> {
    let c = seg.control_or(frame.sentinel);
    seq![c.x, c.y, flag(frame, is_last), flag(frame, is_last)]
}

/// The corner that slot `t` of a quad's six indices refers to: the triangles
/// (0, 1, 2) and (3, 2, 1).
pub open spec fn winding(t: int) -> int {
    if t == 0 {
        0
    } else if t == 1 {
        1
    } else if t == 2 {
        2
    } else if t == 3 {
        3
    } else if t == 4 {
        2
    } else {
        1
    }
}

/// Entry `i` of the triangle list: quad `i / 6`, whose first vertex is
/// `4 * (i / 6)`.
pub open spec fn index_at(i: int) -> int {
    4 * (i / 6) + winding(i % 6)
}

/// The mesh of a sequence of segments: segment `k` owns the vertices
/// `4 * k .. 4 * k + 4` and the indices `6 * k .. 6 * k + 6`, and only the
/// final segment is flagged as last.
pub open spec fn packed<S>(segments: Seq<Segment<S>>, frame: Frame<S>) -> MeshView<S> {
    let n = segments.len() as int;
    MeshView {
        positions: Seq::new((4 * n) as nat, |v: int| position_row(segments[v / 4], frame, v % 4)),
        uvs: Seq::new((4 * n) as nat, |v: int| uv_row(segments[v / 4], frame, v % 4)),
        ends: Seq::new((4 * n) as nat, |v: int| ends_row(segments[v / 4])),
        controls: Seq::new(
            (4 * n) as nat,
            |v: int| control_row(segments[v / 4], frame, v / 4 == n - 1),
        ),
        indices: Seq::new((6 * n) as nat, |i: int| index_at(i)),
    }
}

impl<S> MeshView<S> {
    /// Every attribute has one row per vertex, the vertices come in fours, the
    /// indices in sixes per four vertices, and no index points outside the
    /// vertices.
    pub open spec fn well_formed(self) -> bool {
        &&& self.positions.len() % 4 == 0
        &&& self.uvs.len() == self.positions.len()
        &&& self.ends.len() == self.positions.len()
        &&& self.controls.len() == self.positions.len()
        &&& 4 * self.indices.len() == 6 * self.positions.len()
        &&& forall|i: int|
            0 <= i < self.indices.len() ==> 0 <= #[trigger] self.indices[i] < self.positions.len()
    }
}

/// A packed mesh has four vertices and six indices per segment.
pub proof fn lemma_packed_counts<S>(segments: Seq<Segment<S>>, frame: Frame<S>)
    ensures
        packed(segments, frame).positions.len() == 4 * segments.len(),
        packed(segments, frame).uvs.len() == 4 * segments.len(),
        packed(segments, frame).ends.len() == 4 * segments.len(),
        packed(segments, frame).controls.len() == 4 * segments.len(),
        packed(segments, frame).indices.len() == 6 * segments.len(),
{
}

/// A packed mesh is well formed: in particular every index names one of its
/// vertices.
pub proof fn lemma_packed_well_formed<S>(segments: Seq<Segment<S>>, frame: Frame<S>)
    ensures
        packed(segments, frame).well_formed(),
{
    let m = packed(segments, frame);
    assert forall|i: int| 0 <= i < m.indices.len() implies 0 <= #[trigger] m.indices[i]
        < m.positions.len() by {
        assert(m.indices[i] == index_at(i));
    }
}

/// Every vertex of a segment carries the segment's two end points, as they
/// were given, whatever the kind of the segment.
pub proof fn lemma_ends_verbatim<S>(segments: Seq<Segment<S>>, frame: Frame<S>, k: int, j: int)
    requires
        0 <= k < segments.len(),
        0 <= j < 4,
    ensures
        packed(segments, frame).ends[4 * k + j] == seq![
            segments[k].start.x,
            segments[k].start.y,
            segments[k].end.x,
            segments[k].end.y,
        ],
{
    assert((4 * k + j) / 4 == k);
}

/// Every vertex of a segment carries the segment's control point, or the
/// sentinel when the segment is a line, and twice the segment's flag: that
/// of the last segment on the final segment, the other on every segment
/// before it.
pub proof fn lemma_controls<S>(segments: Seq<Segment<S>>, frame: Frame<S>, k: int, j: int)
    requires
        0 <= k < segments.len(),
        0 <= j < 4,
    ensures
        packed(segments, frame).controls[4 * k + j].len() == 4,
        packed(segments, frame).controls[4 * k + j][0] == segments[k].control_or(frame.sentinel).x,
        packed(segments, frame).controls[4 * k + j][1] == segments[k].control_or(frame.sentinel).y,
        k == segments.len() - 1 ==> packed(segments, frame).controls[4 * k + j][2] == frame.last
            && packed(segments, frame).controls[4 * k + j][3] == frame.last,
        k < segments.len() - 1 ==> packed(segments, frame).controls[4 * k + j][2] == frame.inner
            && packed(segments, frame).controls[4 * k + j][3] == frame.inner,
{
    assert((4 * k + j) / 4 == k);
}

/// The four vertices of a segment are the corners of its quad: the padded
/// x-range of the segment by the full height of the canvas.
pub proof fn lemma_quad_corners<S>(segments: Seq<Segment<S>>, frame: Frame<S>, k: int)
    requires
        0 <= k < segments.len(),
    ensures
        packed(segments, frame).positions[4 * k] == seq![segments[k].left, frame.top, frame.depth],
        packed(segments, frame).positions[4 * k + 1] == seq![
            segments[k].left,
            frame.bottom,
            frame.depth,
        ],
        packed(segments, frame).positions[4 * k + 2] == seq![
            segments[k].right,
            frame.top,
            frame.depth,
        ],
        packed(segments, frame).positions[4 * k + 3] == seq![
            segments[k].right,
            frame.bottom,
            frame.depth,
        ],
        forall|j: int|
            0 <= j < 4 ==> #[trigger] packed(segments, frame).uvs[4 * k + j] == packed(
                segments,
                frame,
            ).positions[4 * k + j].take(2),
{
    let m = packed(segments, frame);
    assert forall|j: int| 0 <= j < 4 implies #[trigger] m.uvs[4 * k + j] == m.positions[4 * k
        + j].take(2) by {
        assert((4 * k + j) / 4 == k);
        assert((4 * k + j) % 4 == j);
        assert(m.uvs[4 * k + j] =~= m.positions[4 * k + j].take(2));
    }
    assert((4 * k + 0) / 4 == k && (4 * k + 0) % 4 == 0);
    assert((4 * k + 1) / 4 == k && (4 * k + 1) % 4 == 1);
    assert((4 * k + 2) / 4 == k && (4 * k + 2) % 4 == 2);
    assert((4 * k + 3) / 4 == k && (4 * k + 3) % 4 == 3);
}

/// The two triangles of segment `k` are (0, 1, 2) and (3, 2, 1), counted
/// from the segment's first vertex `4 * k`.
pub proof fn lemma_quad_triangles<S>(segments: Seq<Segment<S>>, frame: Frame<S>, k: int)
    requires
        0 <= k < segments.len(),
    ensures
        packed(segments, frame).indices.subrange(6 * k, 6 * k + 6) == seq![
            4 * k,
            4 * k + 1,
            4 * k + 2,
            4 * k + 3,
            4 * k + 2,
            4 * k + 1,
        ],
{
    let m = packed(segments, frame);
    let want = seq![4 * k, 4 * k + 1, 4 * k + 2, 4 * k + 3, 4 * k + 2, 4 * k + 1];
    assert forall|t: int| 0 <= t < 6 implies m.indices.subrange(6 * k, 6 * k + 6)[t] == want[t] by {
        assert((6 * k + t) / 6 == k);
        assert((6 * k + t) % 6 == t);
    }
    assert(m.indices.subrange(6 * k, 6 * k + 6) =~= want);
}

/// The rows of an attribute buffer as sequences.
pub open spec fn rows<S, const N: usize>(buffer: Seq<[S; N]>) -> Seq<Seq<S>> {
    Seq::new(buffer.len(), |i: int| buffer[i]@)
}

/// Why a mesh could not be packed.
#[derive(Clone, Copy, Debug, PartialEq, Eq)]
pub enum MeshError {
    /// More than [`MAX_SEGMENTS`] segments: a vertex number would not fit in 32 bits.
    TooManySegments,
}

/// A triangulated curve, ready to be handed to a renderer: four attribute
/// buffers with one row per vertex, and a triangle list.
#[derive(Debug)]
pub struct CurveMesh<S> {
    positions: Vec<[S; 3]>,
    uvs: Vec<[S; 2]>,
    ends: Vec<[S; 4]>,
    controls: Vec<[S; 4]>,
    indices: Vec<u32>,
}

impl<S> View for CurveMesh<S> {
    type V = MeshView<S>;

    closed spec fn view(&self) -> MeshView<S> {
        MeshView {
            positions: rows(self.positions@),
            uvs: rows(self.uvs@),
            ends: rows(self.ends@),
            controls: rows(self.controls@),
            indices: Seq::new(self.indices@.len(), |i: int| self.indices@[i] as int),
        }
    }
}

impl<S> CurveMesh<S> {
    #[verifier::type_invariant]
    spec fn inv(self) -> bool {
        self@.well_formed()
    }

    /// The number of vertices: four per segment.
    pub fn vertex_count(&self) -> (n: usize)
        ensures
            n == self@.positions.len(),
            self@.well_formed(),
    {
        proof {
            use_type_invariant(self);
        }
        self.positions.len()
    }

    /// The number of indices: six per segment.
    pub fn index_count(&self) -> (n: usize)
        ensures
            n == self@.indices.len(),
            self@.well_formed(),
    {
        proof {
            use_type_invariant(self);
        }
        self.indices.len()
    }

    /// The number of segments that the mesh was packed from.
    pub fn segment_count(&self) -> (n: usize)
        ensures
            4 * n == self@.positions.len(),
            6 * n == self@.indices.len(),
    {
        proof {
            use_type_invariant(self);
        }
        self.positions.len() / 4
    }

    /// The position attribute: x, y, z of each vertex.
    pub fn positions(&self) -> (buffer: &Vec<[S; 3]>)
        ensures
            rows(buffer@) == self@.positions,
    {
        &self.positions
    }

    /// The uv attribute: x, y of each vertex.
    pub fn uvs(&self) -> (buffer: &Vec<[S; 2]>)
        ensures
            rows(buffer@) == self@.uvs,
    {
        &self.uvs
    }

    /// The ends attribute: the end points of each vertex's segment.
    pub fn ends(&self) -> (buffer: &Vec<[S; 4]>)
        ensures
            rows(buffer@) == self@.ends,
    {
        &self.ends
    }

    /// The control attribute: the control point and flag of each vertex's segment.
    pub fn controls(&self) -> (buffer: &Vec<[S; 4]>)
        ensures
            rows(buffer@) == self@.controls,
    {
        &self.controls
    }

    /// The triangle list.
    pub fn indices(&self) -> (buffer: &Vec<u32>)
        ensures
            buffer@.len() == self@.indices.len(),
            forall|i: int| 0 <= i < buffer@.len() ==> #[trigger] buffer@[i] as int == self@.indices[i],
    {
        &self.indices
    }
}

impl<S: Copy> CurveMesh<S> {
    /// Packs `segments` into a mesh. Fails when there are more segments than
    /// 32-bit indices can address, and then only.
    pub fn pack(segments: &Vec<Segment<S>>, frame: &Frame<S>) -> (r: Result<CurveMesh<S>, MeshError>)
        ensures
            segments.len() > MAX_SEGMENTS <==> r is Err,
            r matches Err(e) ==> e == MeshError::TooManySegments,
            r matches Ok(mesh) ==> mesh@ == packed(segments@, *frame),
    {
        let n: usize = segments.len();
        if n > MAX_SEGMENTS {
            return Err(MeshError::TooManySegments);
        }
        let mut positions: Vec<[S; 3]> = Vec::new();
        let mut uvs: Vec<[S; 2]> = Vec::new();
        let mut ends: Vec<[S; 4]> = Vec::new();
        let mut controls: Vec<[S; 4]> = Vec::new();
        let mut indices: Vec<u32> = Vec::new();
        let mut k: usize = 0;
        while k < n
            invariant
                n == segments.len(),
                n <= MAX_SEGMENTS,
                k <= n,
                positions@.len() == 4 * k,
                uvs@.len() == 4 * k,
                ends@.len() == 4 * k,
                controls@.len() == 4 * k,
                indices@.len() == 6 * k,
                forall|v: int|
                    0 <= v < 4 * k ==> (#[trigger] positions@[v])@ == position_row(
                        segments@[v / 4],
                        *frame,
                        v % 4,
                    ),
                forall|v: int|
                    0 <= v < 4 * k ==> (#[trigger] uvs@[v])@ == uv_row(
                        segments@[v / 4],
                        *frame,
                        v % 4,
                    ),
                forall|v: int| 0 <= v < 4 * k ==> (#[trigger] ends@[v])@ == ends_row(segments@[v / 4]),
                forall|v: int|
                    0 <= v < 4 * k ==> (#[trigger] controls@[v])@ == control_row(
                        segments@[v / 4],
                        *frame,
                        v / 4 == n - 1,
                    ),
                forall|i: int| 0 <= i < 6 * k ==> (#[trigger] indices@[i]) as int == index_at(i),
            decreases n - k,
        {
            let seg: Segment<S> = segments[k];
            let c = seg.control_point(frame.sentinel);
            let f: S = if k == n - 1 {
                frame.last
            } else {
                frame.inner
            };
            let base: u32 = (4 * k) as u32;

            positions.push([seg.left, frame.top, frame.depth]);
            positions.push([seg.left, frame.bottom, frame.depth]);
            positions.push([seg.right, frame.top, frame.depth]);
            positions.push([seg.right, frame.bottom, frame.depth]);

            uvs.push([seg.left, frame.top]);
            uvs.push([seg.left, frame.bottom]);
            uvs.push([seg.right, frame.top]);
            uvs.push([seg.right, frame.bottom]);

            ends.push([seg.start.x, seg.start.y, seg.end.x, seg.end.y]);
            ends.push([seg.start.x, seg.start.y, seg.end.x, seg.end.y]);
            ends.push([seg.start.x, seg.start.y, seg.end.x, seg.end.y]);
            ends.push([seg.start.x, seg.start.y, seg.end.x, seg.end.y]);

            controls.push([c.x, c.y, f, f]);
            controls.push([c.x, c.y, f, f]);
            controls.push([c.x, c.y, f, f]);
            controls.push([c.x, c.y, f, f]);

            indices.push(base);
            indices.push(base + 1);
            indices.push(base + 2);
            indices.push(base + 3);
            indices.push(base + 2);
            indices.push(base + 1);

            k = k + 1;
        }
        proof {
            lemma_packed_well_formed(segments@, *frame);
            let want = packed(segments@, *frame);
            assert(rows(positions@) =~= want.positions);
            assert(rows(uvs@) =~= want.uvs);
            assert(rows(ends@) =~= want.ends);
            assert(rows(controls@) =~= want.controls);
            assert(Seq::new(indices@.len(), |i: int| indices@[i] as int) =~= want.indices);
        }
        Ok(CurveMesh { positions, uvs, ends, controls, indices })
    }
}

} // verus!
