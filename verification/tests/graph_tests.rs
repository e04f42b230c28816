//! Scene graph behaviour: insertion, removal, reparenting, cycle rejection.

use animator_core::errors::AnimatorError;
use animator_core::graph::{PropertyValue, SceneGraph, SceneNode};
use animator_core::curve::Value;

fn node(id: &str) -> SceneNode {
    SceneNode::new(id, id, "group")
}

#[test]
fn duplicate_insertion() {
    let mut g = SceneGraph::new();
    g.insert(node("a"), None).unwrap();
    let before = g.node_count();
    let r = g.insert(node("a"), None);
    assert!(matches!(r, Err(AnimatorError::DuplicateId { .. })));
    assert_eq!(g.node_count(), before);
}

#[test]
fn insert_under_missing_parent_fails() {
    let mut g = SceneGraph::new();
    let r = g.insert(node("child"), Some(&"ghost".to_string()));
    assert!(matches!(r, Err(AnimatorError::NodeNotFound { .. })));
    assert_eq!(g.node_count(), 0);
}

#[test]
fn insert_builds_child_lists_in_order() {
    let mut g = SceneGraph::new();
    let a = "a".to_string();
    g.insert(node("a"), None).unwrap();
    g.insert(node("b"), Some(&a)).unwrap();
    g.insert(node("c"), Some(&a)).unwrap();
    assert_eq!(g.children_of(&a).unwrap(), vec!["b".to_string(), "c".to_string()]);
    assert_eq!(g.roots(), vec!["a".to_string()]);
}

#[test]
fn cycle_rejection() {
    // a -> b -> c; moving a under its descendant c must fail and leave the
    // graph unchanged.
    let mut g = SceneGraph::new();
    let a = "a".to_string();
    let b = "b".to_string();
    let c = "c".to_string();
    g.insert(node("a"), None).unwrap();
    g.insert(node("b"), Some(&a)).unwrap();
    g.insert(node("c"), Some(&b)).unwrap();
    let r = g.reparent(&a, Some(&c));
    assert!(matches!(r, Err(AnimatorError::CycleDetected)));
    assert_eq!(g.roots(), vec!["a".to_string()]);
    assert_eq!(g.children_of(&a).unwrap(), vec!["b".to_string()]);
    assert_eq!(g.children_of(&b).unwrap(), vec!["c".to_string()]);
    assert_eq!(g.children_of(&c).unwrap(), Vec::<String>::new());
}

#[test]
fn self_reparent_is_a_cycle() {
    let mut g = SceneGraph::new();
    let a = "a".to_string();
    g.insert(node("a"), None).unwrap();
    let r = g.reparent(&a, Some(&a));
    assert!(matches!(r, Err(AnimatorError::CycleDetected)));
}

#[test]
fn reparent_moves_node() {
    let mut g = SceneGraph::new();
    let a = "a".to_string();
    let b = "b".to_string();
    g.insert(node("a"), None).unwrap();
    g.insert(node("b"), None).unwrap();
    g.reparent(&b, Some(&a)).unwrap();
    assert_eq!(g.roots(), vec!["a".to_string()]);
    assert_eq!(g.children_of(&a).unwrap(), vec!["b".to_string()]);
    g.reparent(&b, None).unwrap();
    assert_eq!(g.roots(), vec!["a".to_string(), "b".to_string()]);
}

#[test]
fn remove_detaches_children_as_roots() {
    // Removing b from a -> b -> c keeps c, now a root.
    let mut g = SceneGraph::new();
    let a = "a".to_string();
    let b = "b".to_string();
    let c = "c".to_string();
    g.insert(node("a"), None).unwrap();
    g.insert(node("b"), Some(&a)).unwrap();
    g.insert(node("c"), Some(&b)).unwrap();
    g.remove(&b).unwrap();
    assert_eq!(g.node_count(), 2);
    assert_eq!(g.roots(), vec!["a".to_string(), "c".to_string()]);
    assert!(g.get(&c).is_ok());
    assert!(matches!(g.get(&b), Err(AnimatorError::NodeNotFound { .. })));
}

#[test]
fn remove_missing_fails() {
    let mut g = SceneGraph::new();
    let r = g.remove(&"nope".to_string());
    assert!(matches!(r, Err(AnimatorError::NodeNotFound { .. })));
}

#[test]
fn get_returns_node_content() {
    let mut g = SceneGraph::new();
    let mut n = SceneNode::new("hero", "Hero", "rectangle");
    n.set_property("position", PropertyValue::Static(Value::Scalar(1500))).unwrap();
    g.insert(n, None).unwrap();
    let got = g.get(&"hero".to_string()).unwrap();
    assert_eq!(got.id, "hero");
    assert_eq!(got.name, "Hero");
    assert_eq!(got.node_type, "rectangle");
    assert_eq!(got.properties.len(), 1);
    assert_eq!(got.properties[0].name, "position");
}

#[test]
fn set_property_rejects_empty_name() {
    let mut n = SceneNode::new("x", "x", "group");
    let r = n.set_property("", PropertyValue::Static(Value::Scalar(0)));
    assert!(matches!(r, Err(AnimatorError::InvalidProperty { .. })));
    assert_eq!(n.properties.len(), 0);
}

#[test]
fn set_property_replaces_existing_name() {
    let mut n = SceneNode::new("x", "x", "group");
    n.set_property("opacity", PropertyValue::Static(Value::Scalar(1000))).unwrap();
    n.set_property("opacity", PropertyValue::Static(Value::Scalar(500))).unwrap();
    assert_eq!(n.properties.len(), 1);
    assert_eq!(n.properties[0].value, PropertyValue::Static(Value::Scalar(500)));
}

#[test]
fn error_messages_name_the_subject() {
    let e = AnimatorError::NodeNotFound { node_id: "ghost".to_string() };
    assert_eq!(e.message(), "node not found: ghost");
    assert_eq!(AnimatorError::CycleDetected.message(), "operation would create a cycle");
    assert_eq!(AnimatorError::BackendNotReady.message(), "graphics backend not ready");
    assert_eq!(AnimatorError::InvalidInput.message(), "invalid input");
    let d = AnimatorError::DuplicateId { node_id: "a".to_string() };
    assert_eq!(d.message(), "duplicate node id: a");
    let p = AnimatorError::InvalidProperty { property: "".to_string() };
    assert_eq!(p.message(), "invalid property: ");
    let r = AnimatorError::RenderError { message: "surface lost".to_string() };
    assert_eq!(r.message(), "render error: surface lost");
    let v = AnimatorError::EvaluationError { message: "dangling id".to_string() };
    assert_eq!(v.message(), "evaluation error: dangling id");
}
