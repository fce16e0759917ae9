//! The marker instancer: scatter series are drawn as one shared quad,
//! instanced once per point.

use vstd::prelude::*;
use crate::geometry::Point;

verus! {

/// What all markers of one series share.
#[derive(Clone, Copy, Debug)]
pub struct MarkerStyle<S> {
    /// The z of every marker: the draw layer, above the curves.
    pub layer: S,
    /// The scale of every marker.
    pub scale: S,
    /// Red, green, blue and alpha of every marker.
    pub color: [S; 4],
}

/// One instance of the marker quad.
#[derive(Clone, Copy, Debug)]
pub struct MarkerInstanceData<S> {
    pub position: [S; 3],
    pub scale: S,
    pub color: [S; 4],
}

/// The instance buffer of one series: one record per point, in the order of
/// the points.
#[derive(Debug)]
pub struct MarkerInstanceMatData<S>(pub Vec<MarkerInstanceData<S>>);

/// A canvas was moved, resized or restyled.
#[derive(Clone, Copy, Debug, PartialEq, Eq)]
pub struct ChangeCanvasMaterialEvent {
    pub canvas_material_handle: u64,
    pub plot_handle: u64,
}

/// The markers of a plot have to be emitted again.
#[derive(Clone, Copy, Debug, PartialEq, Eq)]
pub struct SpawnMarkersEvent {
    pub canvas_handle: u64,
    pub plot_handle: u64,
}

/// `instance` is the marker at `point`: the point's x and y on the layer of
/// the style, with the style's scale and color.
pub open spec fn marks<S>(instance: MarkerInstanceData<S>, point: Point<S>, style: MarkerStyle<S>) -> bool {
    &&& instance.position@ == seq![point.x, point.y, style.layer]
    &&& instance.scale == style.scale
    &&& instance.color == style.color
}

/// The request that answers a change of canvas: for the same canvas and plot.
pub open spec fn respawn(change: ChangeCanvasMaterialEvent) -> SpawnMarkersEvent {
    SpawnMarkersEvent {
        canvas_handle: change.canvas_material_handle,
        plot_handle: change.plot_handle,
    }
}

/// Emits one instance per point, whatever the coordinates are: they are
/// passed through as they come. `points` are in world space, already offset
/// by the origin of the canvas.
pub fn plot_points<S: Copy>(points: &Vec<Point<S>>, style: &MarkerStyle<S>) -> (buffer: MarkerInstanceMatData<S>)
    ensures
        buffer.0.len() == points.len(),
        forall|k: int| 0 <= k < points.len() ==> marks(#[trigger] buffer.0[k], points[k], *style),
{
    let n: usize = points.len();
    let mut instances: Vec<MarkerInstanceData<S>> = Vec::new();
    let mut k: usize = 0;
    while k < n
        invariant
            n == points.len(),
            k <= n,
            instances.len() == k,
            forall|i: int| 0 <= i < k ==> marks(#[trigger] instances[i], points[i], *style),
        decreases n - k,
    {
        let p: Point<S> = points[k];
        instances.push(
            MarkerInstanceData {
                position: [p.x, p.y, style.layer],
                scale: style.scale,
                color: style.color,
            },
        );
        k = k + 1;
    }
    MarkerInstanceMatData(instances)
}

/// Answers every change of a canvas with a request to emit the markers of
/// its plot again: one request per change, in the order of the changes.
pub fn move_markers(changes: &Vec<ChangeCanvasMaterialEvent>) -> (requests: Vec<SpawnMarkersEvent>)
    ensures
        requests@ == changes@.map_values(|c: ChangeCanvasMaterialEvent| respawn(c)),
{
    let n: usize = changes.len();
    let mut requests: Vec<SpawnMarkersEvent> = Vec::new();
    let mut k: usize = 0;
    while k < n
        invariant
            n == changes.len(),
            k <= n,
            requests.len() == k,
            forall|i: int| 0 <= i < k ==> #[trigger] requests[i] == respawn(changes[i]),
        decreases n - k,
    {
        let change: ChangeCanvasMaterialEvent = changes[k];
        requests.push(
            SpawnMarkersEvent {
                canvas_handle: change.canvas_material_handle,
                plot_handle: change.plot_handle,
            },
        );
        k = k + 1;
    }
    assert(requests@ =~= changes@.map_values(|c: ChangeCanvasMaterialEvent| respawn(c)));
    requests
}

} // verus!
