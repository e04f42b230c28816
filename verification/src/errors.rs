//! The engine's error taxonomy. Every failure of a graph mutation, an
//! evaluation or a render request is one of these variants; all of them are
//! recoverable by the caller.

use vstd::prelude::*;
use vstd::string::StringExecFns;

verus! {

/// Everything that can go wrong inside the engine.
#[derive(Debug, Clone, PartialEq, Eq)]
pub enum AnimatorError {
    /// A node id was looked up and is not in the scene graph.
    NodeNotFound { node_id: String },
    /// An insertion would reuse an id that is already present.
    DuplicateId { node_id: String },
    /// A reparent would make a node its own ancestor.
    CycleDetected,
    /// A property is malformed (for instance, an empty name).
    InvalidProperty { property: String },
    /// An input value is outside the engine's domain (for instance, keyframe
    /// times that do not increase).
    InvalidInput,
    /// A render was requested before the backend finished initializing.
    BackendNotReady,
    /// The graphics backend failed while presenting a frame.
    RenderError { message: String },
    /// Evaluation hit a malformed scene (an implementation bug if it occurs).
    EvaluationError { message: String },
}

/// Prefix and detail, joined.
fn msg_with(prefix: &str, detail: &String) -> (r: String)
    ensures
        r@ == prefix@ + detail@,
{
    let mut s: String = prefix.to_owned();
    s.append(detail.as_str());
    s
}

impl AnimatorError {
    /// A human-readable description of the error.
    pub fn message(&self) -> (r: String)
        ensures
            (match self {
                AnimatorError::NodeNotFound { node_id } => r@ == "node not found: "@
                    + node_id@,
                AnimatorError::DuplicateId { node_id } => r@ == "duplicate node id: "@
                    + node_id@,
                AnimatorError::CycleDetected => r@ == "operation would create a cycle"@,
                AnimatorError::InvalidProperty { property } => r@ == "invalid property: "@
                    + property@,
                AnimatorError::InvalidInput => r@ == "invalid input"@,
                AnimatorError::BackendNotReady => r@ == "graphics backend not ready"@,
                AnimatorError::RenderError { message } => r@ == "render error: "@ + message@,
                AnimatorError::EvaluationError { message } => r@ == "evaluation error: "@
                    + message@,
            }),
    {
        match self {
            AnimatorError::NodeNotFound { node_id } => msg_with("node not found: ", node_id),
            AnimatorError::DuplicateId { node_id } => msg_with("duplicate node id: ", node_id),
            AnimatorError::CycleDetected => "operation would create a cycle".to_owned(),
            AnimatorError::InvalidProperty { property } => msg_with("invalid property: ", property),
            AnimatorError::InvalidInput => "invalid input".to_owned(),
            AnimatorError::BackendNotReady => "graphics backend not ready".to_owned(),
            AnimatorError::RenderError { message } => msg_with("render error: ", message),
            AnimatorError::EvaluationError { message } => msg_with("evaluation error: ", message),
        }
    }
}

} // verus!
