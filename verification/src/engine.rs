//! The engine facade and the render pipeline's state machine.
//!
//! The engine owns the scene graph and the pipeline state. The pipeline has
//! a strict two-phase lifecycle: no frame can be planned until the backend
//! handshake has been recorded, and a request before that fails with
//! `BackendNotReady`. Planning a frame is pure: it evaluates the scene and
//! produces the ordered draw list plus the frame metadata; performing the
//! GPU submission itself is the host's part and never touches this state.

use vstd::prelude::*;
use vstd::string::StringExecFns;
use crate::errors::AnimatorError;
use crate::evaluate::{
    EvaluatedNode, EvaluatedScene, evaluate_graph, evaluated_matches, node_world,
};
use crate::graph::{
    GraphEntry, SceneGraph, SceneNode, entry_id, graph_eq, graph_wf, has_id, node_wf, parent_id,
};
use crate::math::MAX_COORD;
use crate::transform::Transform2D;

verus! {

/// A caller-supplied description of one frame request; not retained by the
/// engine. Time and frame rate are fixed-point thousandths.
#[derive(Clone, Copy, Debug, PartialEq, Eq, Structural)]
pub struct RenderContext {
    pub time: i64,
    pub frame_rate: i64,
    pub width: u32,
    pub height: u32,
}

impl RenderContext {
    /// Build a frame request.
    pub fn new(time: i64, frame_rate: i64, width: u32, height: u32) -> (r: RenderContext)
        ensures
            r == (RenderContext { time, frame_rate, width, height }),
    {
        RenderContext { time, frame_rate, width, height }
    }
}

/// Metadata of one planned frame.
#[derive(Clone, Copy, Debug, PartialEq, Eq, Structural)]
pub struct FrameMetadata {
    pub width: u32,
    pub height: u32,
    pub timestamp: i64,
    pub rendered: bool,
}

/// One draw command: a primitive-bearing node and its world placement.
#[derive(Debug, PartialEq, Eq, Clone)]
pub struct DrawCommand {
    pub node_id: String,
    pub world: Transform2D,
}

/// A planned frame: metadata plus the ordered draw list for the backend.
#[derive(Debug, PartialEq, Eq, Clone)]
pub struct Frame {
    pub metadata: FrameMetadata,
    pub draws: Vec<DrawCommand>,
}

/// The render pipeline's lifecycle state: uninitialized until the backend
/// handshake completes.
#[derive(Debug, PartialEq, Eq, Clone)]
pub struct RenderPipeline {
    pub ready: bool,
}

/// The draw list over the first `n` evaluated nodes, in scene order: one
/// draw per rectangle node.
pub open spec fn draw_plan(ns: Seq<EvaluatedNode>, n: int) -> Seq<(Seq<char>, Transform2D)>
    decreases n,
{
    if n <= 0 {
        Seq::empty()
    } else {
        let pre = draw_plan(ns, n - 1);
        if ns[n - 1].node_type@ == "rectangle"@ {
            pre.push((ns[n - 1].id@, ns[n - 1].world))
        } else {
            pre
        }
    }
}

/// The same draw list, stated over the graph itself: one draw per rectangle
/// node, placed by its world transform at time `t`.
pub open spec fn graph_draw_plan(s: Seq<GraphEntry>, t: int, n: int) -> Seq<
    (Seq<char>, Transform2D),
>
    decreases n,
{
    if n <= 0 {
        Seq::empty()
    } else {
        let pre = graph_draw_plan(s, t, n - 1);
        if s[n - 1].node.node_type@ == "rectangle"@ {
            pre.push((entry_id(s[n - 1]), node_world(s, t, n - 1)))
        } else {
            pre
        }
    }
}

/// A snapshot's draw list equals the graph's draw list at the same time.
pub proof fn lemma_draw_plan_from_scene(r: EvaluatedScene, g: SceneGraph, t: int, n: int)
    requires
        evaluated_matches(r, g, t),
        0 <= n <= g.entries@.len(),
    ensures
        draw_plan(r.nodes@, n) == graph_draw_plan(g.entries@, t, n),
    decreases n,
{
    if n > 0 {
        lemma_draw_plan_from_scene(r, g, t, n - 1);
    }
}

impl RenderPipeline {
    /// A pipeline with no backend resources yet.
    pub fn new() -> (r: RenderPipeline)
        ensures
            !r.ready,
    {
        RenderPipeline { ready: false }
    }

    /// Record that the backend handshake completed and the pipeline is
    /// compiled. Idempotent.
    pub fn complete_initialization(&mut self)
        ensures
            final(self).ready,
    {
        self.ready = true;
    }

    /// Plan one frame from an evaluated scene. Before initialization this
    /// fails with `BackendNotReady`; afterwards it returns the context's
    /// metadata (marked rendered) and one draw per rectangle node, in scene
    /// order.
    pub fn plan_frame(&self, scene: &EvaluatedScene, ctx: &RenderContext) -> (r: Result<
        Frame,
        AnimatorError,
    >)
        ensures
            !self.ready ==> r == Err::<Frame, AnimatorError>(AnimatorError::BackendNotReady),
            self.ready ==> (r matches Ok(f) && f.metadata == (FrameMetadata {
                width: ctx.width,
                height: ctx.height,
                timestamp: ctx.time,
                rendered: true,
            }) && f.draws@.map_values(|c: DrawCommand| (c.node_id@, c.world)) == draw_plan(
                scene.nodes@,
                scene.nodes@.len() as int,
            )),
    {
        if !self.ready {
            return Err(AnimatorError::BackendNotReady);
        }
        let mut draws: Vec<DrawCommand> = Vec::new();
        let rect_key: String = "rectangle".to_owned();
        let mut j: usize = 0;
        while j < scene.nodes.len()
            invariant
                j <= scene.nodes@.len(),
                rect_key@ == "rectangle"@,
                draws@.map_values(|c: DrawCommand| (c.node_id@, c.world)) == draw_plan(
                    scene.nodes@,
                    j as int,
                ),
            decreases scene.nodes@.len() - j,
        {
            if scene.nodes[j].node_type == rect_key {
                draws.push(
                    DrawCommand { node_id: scene.nodes[j].id.clone(), world: scene.nodes[j].world },
                );
            }
            proof {
                assert(draws@.map_values(|c: DrawCommand| (c.node_id@, c.world)) =~= draw_plan(
                    scene.nodes@,
                    j as int + 1,
                ));
            }
            j += 1;
        }
        Ok(
            Frame {
                metadata: FrameMetadata {
                    width: ctx.width,
                    height: ctx.height,
                    timestamp: ctx.time,
                    rendered: true,
                },
                draws,
            },
        )
    }
}

/// The engine facade: owns the scene graph and the pipeline state, and
/// drives evaluation and frame planning.
#[derive(Debug, Clone)]
pub struct AnimatorEngine {
    pub scene_graph: SceneGraph,
    pub pipeline: RenderPipeline,
}

/// Engine invariant: the owned graph is well formed.
pub open spec fn engine_wf(e: AnimatorEngine) -> bool {
    graph_wf(e.scene_graph)
}

impl AnimatorEngine {
    /// A fresh engine: empty scene graph, backend not yet initialized.
    pub fn new() -> (r: AnimatorEngine)
        ensures
            engine_wf(r),
            r.scene_graph.entries@.len() == 0,
            !r.pipeline.ready,
    {
        AnimatorEngine { scene_graph: SceneGraph::new(), pipeline: RenderPipeline::new() }
    }

    /// Record that the backend handshake completed: the engine moves from
    /// created to initialized, and rendering becomes available. Calling it
    /// again is a no-op and still succeeds.
    pub fn initialize(&mut self) -> (r: Result<(), AnimatorError>)
        requires
            engine_wf(*old(self)),
        ensures
            engine_wf(*final(self)),
            final(self).pipeline.ready,
            final(self).scene_graph == old(self).scene_graph,
            r is Ok,
    {
        self.pipeline.complete_initialization();
        Ok(())
    }

    /// Add a node to the scene graph as a root. Valid in every lifecycle
    /// state; fails with `DuplicateId` when the id is taken, leaving the
    /// graph unchanged.
    pub fn add_node(&mut self, node: SceneNode) -> (r: Result<(), AnimatorError>)
        requires
            engine_wf(*old(self)),
            node_wf(node),
        ensures
            engine_wf(*final(self)),
            final(self).pipeline == old(self).pipeline,
            r is Ok <==> !has_id(old(self).scene_graph.entries@, node.id@),
            r is Err ==> *final(self) == *old(self) && r == Err::<(), AnimatorError>(
                AnimatorError::DuplicateId { node_id: node.id },
            ),
            r is Ok ==> final(self).scene_graph.entries@.len() == old(
                self,
            ).scene_graph.entries@.len() + 1 && final(self).scene_graph.entries@.subrange(
                0,
                old(self).scene_graph.entries@.len() as int,
            ) == old(self).scene_graph.entries@ && final(self).scene_graph.entries@.last().node
                == node && parent_id(final(self).scene_graph.entries@.last()) is None,
    {
        self.scene_graph.insert(node, None)
    }

    /// Evaluate the owned scene at a time: pure, needs no backend, valid in
    /// every lifecycle state, and always succeeds on a well-formed engine.
    pub fn evaluate_scene(&self, time: i64) -> (r: Result<EvaluatedScene, AnimatorError>)
        requires
            engine_wf(*self),
            -MAX_COORD <= time <= MAX_COORD,
        ensures
            r matches Ok(s) && evaluated_matches(s, self.scene_graph, time as int),
    {
        Ok(evaluate_graph(&self.scene_graph, time))
    }

    /// Plan one frame at the context's time. Before `initialize` this fails
    /// with `BackendNotReady` and changes nothing; afterwards it evaluates
    /// the scene and returns the frame metadata (marked rendered) with one
    /// draw per rectangle node in scene order.
    pub fn render_frame(&self, ctx: &RenderContext) -> (r: Result<Frame, AnimatorError>)
        requires
            engine_wf(*self),
            -MAX_COORD <= ctx.time <= MAX_COORD,
        ensures
            !self.pipeline.ready ==> r == Err::<Frame, AnimatorError>(
                AnimatorError::BackendNotReady,
            ),
            self.pipeline.ready ==> (r matches Ok(f) && f.metadata == (FrameMetadata {
                width: ctx.width,
                height: ctx.height,
                timestamp: ctx.time,
                rendered: true,
            }) && f.draws@.map_values(|c: DrawCommand| (c.node_id@, c.world)) == graph_draw_plan(
                self.scene_graph.entries@,
                ctx.time as int,
                self.scene_graph.entries@.len() as int,
            )),
    {
        if !self.pipeline.ready {
            return Err(AnimatorError::BackendNotReady);
        }
        let scene = evaluate_graph(&self.scene_graph, ctx.time);
        let r = self.pipeline.plan_frame(&scene, ctx);
        proof {
            lemma_draw_plan_from_scene(
                scene,
                self.scene_graph,
                ctx.time as int,
                self.scene_graph.entries@.len() as int,
            );
        }
        r
    }

    /// A deep copy of the owned scene graph.
    pub fn get_scene_graph(&self) -> (r: SceneGraph)
        ensures
            graph_eq(r, self.scene_graph),
    {
        self.scene_graph.duplicate()
    }
}

/// A friendly greeting for the host shell.
pub fn greet(name: &str) -> (r: String)
    ensures
        r@ == "Hello, "@ + name@ + "! Welcome to Animator!"@,
{
    let mut s: String = "Hello, ".to_owned();
    s.append(name);
    s.append("! Welcome to Animator!");
    s
}

/// The engine's version string.
pub fn version() -> (r: String)
    ensures
        r@ == "0.1.0"@,
{
    "0.1.0".to_owned()
}

} // verus!
