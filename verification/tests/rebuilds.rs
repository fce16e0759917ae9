use curve_tessellation::classify::Bend;
use curve_tessellation::engine::{rebuild_curve, rebuild_markers, RebuildError};
use curve_tessellation::geometry::{Frame, Point};
use curve_tessellation::markers::{
    move_markers, plot_points, ChangeCanvasMaterialEvent, MarkerInstanceMatData, MarkerStyle,
    SpawnMarkersEvent,
};
use curve_tessellation::mesh::CurveMesh;
use curve_tessellation::rebuild::{step, RebuildState, Registry, Target, Trigger};
use curve_tessellation::tessellate::{Sample, TessellateError};

const CAUSES: [Trigger; 4] = [
    Trigger::StyleChanged,
    Trigger::AnimationTick,
    Trigger::SampleCountChanged,
    Trigger::DomainChanged,
];

fn target(plot: u64, index: usize) -> Target {
    Target { plot, index }
}

fn frame() -> Frame<f32> {
    Frame {
        top: 1.0,
        bottom: -1.0,
        depth: 0.0,
        sentinel: Point { x: 0.50001, y: 0.00001 },
        last: 1.0,
        inner: 0.0,
    }
}

fn curve(n: usize) -> (Vec<Sample<f32>>, Vec<Bend<f32>>) {
    let samples = (0..n)
        .map(|i| {
            let x = i as f32;
            Sample { point: Point { x, y: x * x }, left: x - 0.5, right: x + 0.5, finite: true }
        })
        .collect();
    let bends = (1..n).map(|_| Bend { curved: false, crossing: None }).collect();
    (samples, bends)
}

fn style() -> MarkerStyle<f32> {
    MarkerStyle { layer: 20.0, scale: 1.0, color: [0.8, 0.6, 0.1, 1.0] }
}

#[test]
fn every_cause_but_an_idle_tick_makes_a_resource_wait() {
    for cause in CAUSES {
        for animated in [false, true] {
            let fires = cause != Trigger::AnimationTick || animated;
            let from_idle = step(RebuildState::Idle, cause, animated);
            let from_pending = step(RebuildState::PendingRebuild, cause, animated);
            assert_eq!(from_pending, RebuildState::PendingRebuild);
            if fires {
                assert_eq!(from_idle, RebuildState::PendingRebuild);
            } else {
                assert_eq!(from_idle, RebuildState::Idle);
            }
        }
    }
}

#[test]
fn new_resource_waits_to_be_built() {
    let mut registry: Registry<u8> = Registry::new();
    assert!(!registry.contains(target(1, 0)));
    assert_eq!(registry.state(target(1, 0)), None);
    assert!(registry.pending().is_empty());
    assert!(registry.register(target(1, 0), false));
    assert!(registry.contains(target(1, 0)));
    assert_eq!(registry.state(target(1, 0)), Some(RebuildState::PendingRebuild));
    assert_eq!(registry.get(target(1, 0)), None);
    assert_eq!(registry.pending(), vec![target(1, 0)]);
}

#[test]
fn registering_twice_changes_nothing() {
    let mut registry: Registry<u8> = Registry::new();
    assert!(registry.register(target(1, 0), true));
    assert!(registry.complete(target(1, 0), 7));
    assert!(!registry.register(target(1, 0), false));
    assert_eq!(registry.state(target(1, 0)), Some(RebuildState::Idle));
    assert_eq!(registry.get(target(1, 0)), Some(&7));
    registry.tick();
    assert_eq!(registry.state(target(1, 0)), Some(RebuildState::PendingRebuild));
}

#[test]
fn rebuild_cycle_goes_idle_pending_idle() {
    let t = target(3, 2);
    let mut registry: Registry<&str> = Registry::new();
    registry.register(t, false);
    assert!(registry.complete(t, "first"));
    assert_eq!(registry.state(t), Some(RebuildState::Idle));
    assert_eq!(registry.get(t), Some(&"first"));
    for cause in [Trigger::StyleChanged, Trigger::SampleCountChanged, Trigger::DomainChanged] {
        assert!(registry.notify(t, cause));
        assert_eq!(registry.state(t), Some(RebuildState::PendingRebuild));
        assert_eq!(registry.get(t), None);
        assert_eq!(registry.pending(), vec![t]);
        assert!(registry.complete(t, "next"));
        assert_eq!(registry.state(t), Some(RebuildState::Idle));
        assert_eq!(registry.get(t), Some(&"next"));
        assert!(registry.pending().is_empty());
    }
}

#[test]
fn triggers_do_not_queue_up() {
    let t = target(1, 0);
    let mut registry: Registry<u8> = Registry::new();
    registry.register(t, false);
    registry.complete(t, 1);
    registry.notify(t, Trigger::StyleChanged);
    registry.notify(t, Trigger::DomainChanged);
    registry.notify(t, Trigger::StyleChanged);
    assert_eq!(registry.pending(), vec![t]);
    registry.complete(t, 2);
    assert!(registry.pending().is_empty());
    assert_eq!(registry.state(t), Some(RebuildState::Idle));
    assert_eq!(registry.get(t), Some(&2));
}

#[test]
fn tick_reaches_animated_resources_only() {
    let (still, moving) = (target(1, 0), target(1, 1));
    let mut registry: Registry<u8> = Registry::new();
    registry.register(still, false);
    registry.register(moving, true);
    registry.complete(still, 10);
    registry.complete(moving, 11);
    registry.tick();
    assert_eq!(registry.state(still), Some(RebuildState::Idle));
    assert_eq!(registry.state(moving), Some(RebuildState::PendingRebuild));
    assert_eq!(registry.pending(), vec![moving]);
    assert_eq!(registry.get(still), Some(&10));
    assert_eq!(registry.get(moving), None);
    assert!(registry.notify(still, Trigger::AnimationTick));
    assert_eq!(registry.state(still), Some(RebuildState::Idle));
    assert!(registry.set_animated(still, true));
    assert!(registry.set_animated(moving, false));
    registry.complete(moving, 12);
    registry.tick();
    assert_eq!(registry.state(still), Some(RebuildState::PendingRebuild));
    assert_eq!(registry.state(moving), Some(RebuildState::Idle));
}

#[test]
fn unknown_target_is_a_no_op() {
    let known = target(1, 0);
    let mut registry: Registry<u8> = Registry::new();
    registry.register(known, true);
    registry.complete(known, 5);
    for missing in [target(1, 1), target(2, 0)] {
        assert!(!registry.notify(missing, Trigger::StyleChanged));
        assert!(!registry.complete(missing, 9));
        assert!(!registry.fail(missing));
        assert!(!registry.clear(missing));
        assert!(!registry.set_animated(missing, true));
        assert_eq!(registry.get(missing), None);
        assert_eq!(registry.state(missing), None);
        assert!(!registry.contains(missing));
    }
    assert_eq!(registry.state(known), Some(RebuildState::Idle));
    assert_eq!(registry.get(known), Some(&5));
    assert!(registry.pending().is_empty());
}

#[test]
fn failed_rebuild_keeps_what_was_built() {
    let t = target(1, 0);
    let mut registry: Registry<u8> = Registry::new();
    registry.register(t, false);
    registry.complete(t, 5);
    registry.notify(t, Trigger::DomainChanged);
    assert!(registry.fail(t));
    assert_eq!(registry.state(t), Some(RebuildState::Idle));
    assert_eq!(registry.get(t), Some(&5));
    assert!(registry.clear(t));
    assert_eq!(registry.state(t), Some(RebuildState::Idle));
    assert_eq!(registry.get(t), None);
}

#[test]
fn pending_lists_each_waiting_target_once() {
    let mut registry: Registry<u8> = Registry::new();
    for plot in 0..3u64 {
        for slot in 0..4usize {
            registry.register(target(plot, slot), slot % 2 == 0);
            registry.complete(target(plot, slot), 0);
        }
    }
    registry.tick();
    registry.notify(target(1, 1), Trigger::StyleChanged);
    registry.notify(target(1, 1), Trigger::StyleChanged);
    let mut pending = registry.pending();
    pending.sort_by_key(|t| (t.plot, t.index));
    let mut expected = vec![
        target(0, 0),
        target(0, 2),
        target(1, 0),
        target(1, 1),
        target(1, 2),
        target(2, 0),
        target(2, 2),
    ];
    expected.sort_by_key(|t| (t.plot, t.index));
    assert_eq!(pending, expected);
}

#[test]
fn rebuilding_a_curve_replaces_its_mesh() {
    let t = target(7, 0);
    let other = target(7, 1);
    let mut registry: Registry<CurveMesh<f32>> = Registry::new();
    registry.register(t, true);
    registry.register(other, false);
    let (samples, bends) = curve(5);
    assert_eq!(rebuild_curve(&mut registry, t, &samples, &bends, &frame()), Ok(()));
    assert_eq!(registry.state(t), Some(RebuildState::Idle));
    assert_eq!(registry.state(other), Some(RebuildState::PendingRebuild));
    assert_eq!(registry.get(t).unwrap().vertex_count(), 16);
    registry.tick();
    assert!(registry.get(t).is_none());
    let (samples, bends) = curve(9);
    assert_eq!(rebuild_curve(&mut registry, t, &samples, &bends, &frame()), Ok(()));
    let mesh = registry.get(t).unwrap();
    assert_eq!(mesh.vertex_count(), 32);
    assert_eq!(mesh.index_count(), 48);
    assert_eq!(mesh.ends()[31], [7.0, 49.0, 8.0, 64.0]);
}

#[test]
fn refused_curve_keeps_the_previous_mesh() {
    let t = target(7, 0);
    let mut registry: Registry<CurveMesh<f32>> = Registry::new();
    registry.register(t, false);
    let (samples, bends) = curve(5);
    rebuild_curve(&mut registry, t, &samples, &bends, &frame()).unwrap();
    registry.notify(t, Trigger::SampleCountChanged);
    let (samples, bends) = curve(1);
    assert_eq!(
        rebuild_curve(&mut registry, t, &samples, &bends, &frame()),
        Err(RebuildError::Refused(TessellateError::TooFewSamples))
    );
    assert_eq!(registry.state(t), Some(RebuildState::Idle));
    assert_eq!(registry.get(t).unwrap().vertex_count(), 16);
    let (samples, _) = curve(4);
    assert_eq!(
        rebuild_curve(&mut registry, t, &samples, &Vec::new(), &frame()),
        Err(RebuildError::Refused(TessellateError::BendCount))
    );
    assert_eq!(registry.get(t).unwrap().vertex_count(), 16);
}

#[test]
fn rebuilding_an_unknown_curve_does_nothing() {
    let mut registry: Registry<CurveMesh<f32>> = Registry::new();
    registry.register(target(1, 0), false);
    let (samples, bends) = curve(5);
    assert_eq!(
        rebuild_curve(&mut registry, target(1, 3), &samples, &bends, &frame()),
        Err(RebuildError::UnknownTarget)
    );
    assert!(!registry.contains(target(1, 3)));
    assert_eq!(registry.pending(), vec![target(1, 0)]);
    let mut markers: Registry<MarkerInstanceMatData<f32>> = Registry::new();
    assert!(!rebuild_markers(&mut markers, target(1, 0), &Vec::new(), &style()));
    assert!(markers.pending().is_empty());
}

#[test]
fn fifty_points_give_fifty_instances() {
    let mut points: Vec<Point<f32>> =
        (0..50).map(|i| Point { x: i as f32 * 0.5 - 3.0, y: (i as f32).sin() }).collect();
    assert_eq!(plot_points(&points, &style()).0.len(), 50);
    points[3] = Point { x: f32::NAN, y: 1.0 };
    points[17] = Point { x: f32::INFINITY, y: f32::NEG_INFINITY };
    points[49] = Point { x: 0.0, y: f32::NAN };
    let buffer = plot_points(&points, &style());
    assert_eq!(buffer.0.len(), 50);
    for (instance, point) in buffer.0.iter().zip(points.iter()) {
        assert_eq!(instance.position[0].to_bits(), point.x.to_bits());
        assert_eq!(instance.position[1].to_bits(), point.y.to_bits());
        assert_eq!(instance.position[2], 20.0);
        assert_eq!(instance.scale, 1.0);
        assert_eq!(instance.color, [0.8, 0.6, 0.1, 1.0]);
    }
    assert!(plot_points(&Vec::<Point<f32>>::new(), &style()).0.is_empty());
}

#[test]
fn rebuilding_markers_replaces_the_instance_buffer() {
    let t = target(4, 0);
    let mut markers: Registry<MarkerInstanceMatData<f32>> = Registry::new();
    markers.register(t, false);
    let points: Vec<Point<f32>> = (0..50).map(|i| Point { x: i as f32, y: -(i as f32) }).collect();
    assert!(rebuild_markers(&mut markers, t, &points, &style()));
    assert_eq!(markers.state(t), Some(RebuildState::Idle));
    assert_eq!(markers.get(t).unwrap().0.len(), 50);
    assert_eq!(markers.get(t).unwrap().0[49].position, [49.0, -49.0, 20.0]);
    markers.notify(t, Trigger::StyleChanged);
    assert!(markers.get(t).is_none());
    assert!(rebuild_markers(&mut markers, t, &points[..3].to_vec(), &style()));
    assert_eq!(markers.get(t).unwrap().0.len(), 3);
}

#[test]
fn canvas_changes_are_answered_one_to_one() {
    let changes = vec![
        ChangeCanvasMaterialEvent { canvas_material_handle: 11, plot_handle: 1 },
        ChangeCanvasMaterialEvent { canvas_material_handle: 22, plot_handle: 2 },
        ChangeCanvasMaterialEvent { canvas_material_handle: 11, plot_handle: 1 },
    ];
    assert_eq!(
        move_markers(&changes),
        vec![
            SpawnMarkersEvent { canvas_handle: 11, plot_handle: 1 },
            SpawnMarkersEvent { canvas_handle: 22, plot_handle: 2 },
            SpawnMarkersEvent { canvas_handle: 11, plot_handle: 1 },
        ]
    );
    assert!(move_markers(&Vec::new()).is_empty());
}
