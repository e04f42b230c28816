//! Evaluation core of a motion-graphics engine: animation curves, a scene
//! graph with hierarchical transforms, a time evaluator, and the state
//! machine of a render pipeline. All quantities are fixed-point integers in
//! thousandths, so evaluation is exact and deterministic.

pub mod math;
pub mod errors;
pub mod curve;
pub mod transform;
pub mod graph;
pub mod evaluate;
pub mod engine;
