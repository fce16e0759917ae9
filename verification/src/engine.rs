//! The entry points that a host calls for a resource that waits to be
//! rebuilt: they build the resource anew and put it in the registry in place
//! of the old one, or leave the old one where the input is refused.

use vstd::prelude::*;
use crate::classify::Bend;
use crate::geometry::{Frame, Point};
use crate::markers::{marks, plot_points, MarkerInstanceMatData, MarkerStyle};
use crate::mesh::{packed, CurveMesh};
use crate::rebuild::{RebuildState, Registry, Slot, Target};
use crate::tessellate::{rejection, segments_of, tessellate, Sample, TessellateError};

verus! {

/// Why nothing was rebuilt.
#[derive(Clone, Copy, Debug, PartialEq, Eq)]
pub enum RebuildError {
    /// The target is not registered: nothing was done.
    UnknownTarget,
    /// The curve could not be tessellated: the previous mesh stays.
    Refused(TessellateError),
}

/// Tessellates a curve and stores the mesh in place of the previous one.
///
/// For an unknown target nothing is done at all. Where the input is refused,
/// the previous mesh stays and the curve is idle again. No other resource
/// of the registry is touched.
pub fn rebuild_curve<S: Copy>(
    registry: &mut Registry<CurveMesh<S>>,
    target: Target,
    samples: &Vec<Sample<S>>,
    bends: &Vec<Bend<S>>,
    frame: &Frame<S>,
) -> (r: Result<(), RebuildError>)
    ensures
        match r {
            Err(RebuildError::UnknownTarget) => {
                &&& !old(registry)@.contains_key(target)
                &&& final(registry)@ == old(registry)@
            },
            Err(RebuildError::Refused(e)) => {
                &&& old(registry)@.contains_key(target)
                &&& rejection(samples@, bends@) == Some(e)
                &&& final(registry)@ == old(registry)@.insert(
                    target,
                    Slot {
                        state: RebuildState::Idle,
                        animated: old(registry)@[target].animated,
                        content: old(registry)@[target].content,
                    },
                )
            },
            Ok(()) => {
                &&& old(registry)@.contains_key(target)
                &&& rejection(samples@, bends@) is None
                &&& final(registry)@.dom() == old(registry)@.dom()
                &&& final(registry)@.remove(target) == old(registry)@.remove(target)
                &&& final(registry)@[target].state == RebuildState::Idle
                &&& final(registry)@[target].animated == old(registry)@[target].animated
                &&& final(registry)@[target].content matches Some(mesh) && mesh@ == packed(
                    segments_of(samples@, bends@),
                    *frame,
                )
            },
        },
{
    if !registry.contains(target) {
        return Err(RebuildError::UnknownTarget);
    }
    match tessellate(samples, bends, frame) {
        Err(e) => {
            registry.fail(target);
            Err(RebuildError::Refused(e))
        },
        Ok(mesh) => {
            registry.complete(target, mesh);
            proof {
                assert(final(registry)@.dom() =~= old(registry)@.dom());
                assert(final(registry)@.remove(target) =~= old(registry)@.remove(target));
            }
            Ok(())
        },
    }
}

/// Emits the markers of a series and stores the instance buffer in place of
/// the previous one: one instance per point. For an unknown target nothing
/// is done. No other resource of the registry is touched.
pub fn rebuild_markers<S: Copy>(
    registry: &mut Registry<MarkerInstanceMatData<S>>,
    target: Target,
    points: &Vec<Point<S>>,
    style: &MarkerStyle<S>,
) -> (known: bool)
    ensures
        known == old(registry)@.contains_key(target),
        !known ==> final(registry)@ == old(registry)@,
        known ==> {
            &&& final(registry)@.dom() == old(registry)@.dom()
            &&& final(registry)@.remove(target) == old(registry)@.remove(target)
            &&& final(registry)@[target].state == RebuildState::Idle
            &&& final(registry)@[target].animated == old(registry)@[target].animated
            &&& final(registry)@[target].content matches Some(buffer) && buffer.0.len()
                == points.len() && forall|k: int|
                0 <= k < points.len() ==> marks(#[trigger] buffer.0[k], points[k], *style)
        },
{
    if !registry.contains(target) {
        return false;
    }
    let buffer = plot_points(points, style);
    registry.complete(target, buffer);
    proof {
        assert(final(registry)@.dom() =~= old(registry)@.dom());
        assert(final(registry)@.remove(target) =~= old(registry)@.remove(target));
    }
    true
}

} // verus!
