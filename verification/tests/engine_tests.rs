//! Engine facade behaviour: lifecycle gating, evaluation, hierarchy
//! composition, determinism.

use animator_core::curve::{AnimationCurve, Interp, Keyframe, Point2D, Value};
use animator_core::engine::{AnimatorEngine, RenderContext, greet, version};
use animator_core::errors::AnimatorError;
use animator_core::graph::{PropertyValue, SceneNode};

fn static_point(x: i64, y: i64) -> PropertyValue {
    PropertyValue::Static(Value::Point(Point2D::new(x, y)))
}

#[test]
fn render_gating() {
    // Before initialize: BackendNotReady. After: a rendered frame whose
    // metadata matches the supplied context.
    let mut engine = AnimatorEngine::new();
    let ctx = RenderContext::new(0, 60_000, 640, 480);
    let early = engine.render_frame(&ctx);
    assert!(matches!(early, Err(AnimatorError::BackendNotReady)));

    engine.initialize().unwrap();
    let mut rect = SceneNode::new("r1", "Rect", "rectangle");
    rect.set_property("position", static_point(1000, 2000)).unwrap();
    engine.add_node(rect).unwrap();

    let frame = engine.render_frame(&ctx).unwrap();
    assert!(frame.metadata.rendered);
    assert_eq!(frame.metadata.width, 640);
    assert_eq!(frame.metadata.height, 480);
    assert_eq!(frame.metadata.timestamp, 0);
    assert_eq!(frame.draws.len(), 1);
    assert_eq!(frame.draws[0].node_id, "r1");
}

#[test]
fn initialize_twice_is_a_noop() {
    let mut engine = AnimatorEngine::new();
    engine.initialize().unwrap();
    engine.initialize().unwrap();
    let ctx = RenderContext::new(0, 24_000, 16, 16);
    assert!(engine.render_frame(&ctx).is_ok());
}

#[test]
fn non_rectangle_nodes_are_not_drawn() {
    let mut engine = AnimatorEngine::new();
    engine.initialize().unwrap();
    engine.add_node(SceneNode::new("g", "Group", "group")).unwrap();
    let ctx = RenderContext::new(0, 60_000, 100, 100);
    let frame = engine.render_frame(&ctx).unwrap();
    assert_eq!(frame.draws.len(), 0);
    assert!(frame.metadata.rendered);
}

#[test]
fn evaluate_scene_determinism() {
    // A fixed graph and time give identical snapshots, call after call.
    let mut engine = AnimatorEngine::new();
    let curve = AnimationCurve::new(vec![
        Keyframe::new(0, Value::Point(Point2D::new(0, 0)), Interp::Linear),
        Keyframe::new(10_000, Value::Point(Point2D::new(8000, 4000)), Interp::Linear),
    ])
    .unwrap();
    let mut n = SceneNode::new("mover", "Mover", "rectangle");
    n.set_property("position", PropertyValue::Animated(curve)).unwrap();
    engine.add_node(n).unwrap();

    let s1 = engine.evaluate_scene(2500).unwrap();
    let s2 = engine.evaluate_scene(2500).unwrap();
    assert_eq!(s1, s2);
    assert_eq!(s1.nodes.len(), 1);
    assert_eq!(s1.nodes[0].world.tx, 2000);
    assert_eq!(s1.nodes[0].world.ty, 1000);
}

#[test]
fn hierarchy_composition() {
    // Parent translated by (10,0), child by (0,5): the child's world
    // position is (10,5).
    let mut engine = AnimatorEngine::new();
    let mut parent = SceneNode::new("parent", "Parent", "group");
    parent.set_property("position", static_point(10_000, 0)).unwrap();
    engine.add_node(parent).unwrap();

    let mut child = SceneNode::new("child", "Child", "rectangle");
    child.set_property("position", static_point(0, 5000)).unwrap();
    engine
        .scene_graph
        .insert(child, Some(&"parent".to_string()))
        .unwrap();

    let scene = engine.evaluate_scene(0).unwrap();
    assert_eq!(scene.nodes.len(), 2);
    let child_eval = &scene.nodes[1];
    assert_eq!(child_eval.id, "child");
    assert_eq!(child_eval.world.tx, 10_000);
    assert_eq!(child_eval.world.ty, 5000);
}

#[test]
fn rotation_world_entries_are_exact() {
    // A quarter turn: cosine 0, sine 1 (in thousandths), so the linear part
    // of the world transform is exactly ((0,-1000),(1000,0)).
    let mut engine = AnimatorEngine::new();
    let mut n = SceneNode::new("spin", "Spin", "rectangle");
    n.set_property("rotation", PropertyValue::Static(Value::Scalar(90_000))).unwrap();
    engine.add_node(n).unwrap();
    let scene = engine.evaluate_scene(0).unwrap();
    let w = &scene.nodes[0].world;
    assert_eq!(w.a, 0);
    assert_eq!(w.b, -1000);
    assert_eq!(w.c, 1000);
    assert_eq!(w.d, 0);
}

#[test]
fn scale_world_entries_are_exact() {
    // Double scale in x, half in y, no rotation.
    let mut engine = AnimatorEngine::new();
    let mut n = SceneNode::new("scaled", "Scaled", "rectangle");
    n.set_property("scale", static_point(2000, 500)).unwrap();
    engine.add_node(n).unwrap();
    let scene = engine.evaluate_scene(0).unwrap();
    let w = &scene.nodes[0].world;
    assert_eq!(w.a, 2000);
    assert_eq!(w.b, 0);
    assert_eq!(w.c, 0);
    assert_eq!(w.d, 500);
}

#[test]
fn evaluated_snapshot_resolves_animated_properties() {
    let mut engine = AnimatorEngine::new();
    let curve = AnimationCurve::new(vec![
        Keyframe::new(0, Value::Scalar(0), Interp::Linear),
        Keyframe::new(10_000, Value::Scalar(100_000), Interp::Linear),
    ])
    .unwrap();
    let mut n = SceneNode::new("fader", "Fader", "group");
    n.set_property("opacity", PropertyValue::Animated(curve)).unwrap();
    engine.add_node(n).unwrap();
    let scene = engine.evaluate_scene(5000).unwrap();
    assert_eq!(scene.nodes[0].properties.len(), 1);
    assert_eq!(scene.nodes[0].properties[0].name, "opacity");
    assert_eq!(scene.nodes[0].properties[0].value, Value::Scalar(50_000));
}

#[test]
fn add_node_rejects_duplicates() {
    let mut engine = AnimatorEngine::new();
    engine.add_node(SceneNode::new("a", "A", "group")).unwrap();
    let r = engine.add_node(SceneNode::new("a", "A again", "group"));
    assert!(matches!(r, Err(AnimatorError::DuplicateId { .. })));
    assert_eq!(engine.scene_graph.node_count(), 1);
}

#[test]
fn snapshot_mirrors_graph_structure() {
    let mut engine = AnimatorEngine::new();
    engine.add_node(SceneNode::new("a", "A", "group")).unwrap();
    engine
        .scene_graph
        .insert(SceneNode::new("b", "B", "group"), Some(&"a".to_string()))
        .unwrap();
    let scene = engine.evaluate_scene(0).unwrap();
    assert_eq!(scene.nodes[0].parent, None);
    assert_eq!(scene.nodes[1].parent, Some("a".to_string()));

    let snapshot = engine.get_scene_graph();
    assert_eq!(snapshot.node_count(), 2);
    assert_eq!(snapshot.roots(), vec!["a".to_string()]);
}

#[test]
fn greet_and_version() {
    assert_eq!(greet("World"), "Hello, World! Welcome to Animator!");
    assert_eq!(version(), "0.1.0");
}
