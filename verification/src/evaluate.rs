//! The evaluator: resolve every property of every node at a query time and
//! compose hierarchical transforms into world placements.
//!
//! Evaluation never mutates the graph and is a pure function of the graph
//! and the time: the same graph and time always give the same snapshot. The
//! snapshot lists nodes in insertion order and carries each node's parent
//! id, so it mirrors the graph's structure, with every animated property
//! replaced by its value at the query time and every node placed by its
//! accumulated world transform (scale, then rotate, then translate, composed
//! root-down).

use vstd::prelude::*;
use crate::curve::{Value, curve_eval, value_bounded};
use crate::graph::{
    GraphEntry, PropertyValue, SceneGraph, SceneNode, depth_inv, entry_id, find_entry, find_prop,
    graph_wf, has_prop, idx_of, ids_unique, lemma_idx_of_self, lemma_prop_idx_self, node_wf,
    parent_id, prop_idx,
};
use crate::math::{MAX_COORD, SCALE, VAL_LIMIT};
use crate::transform::{Transform2D, compose_spec, t2d_wf, trs_exec, trs_spec};

verus! {

/// A property resolved to a concrete value.
#[derive(Debug, PartialEq, Eq, Clone)]
pub struct ResolvedProperty {
    pub name: String,
    pub value: Value,
}

/// A node of the evaluated snapshot: every property resolved, and the
/// accumulated world transform attached.
#[derive(Debug, PartialEq, Eq, Clone)]
pub struct EvaluatedNode {
    pub id: String,
    pub name: String,
    pub node_type: String,
    pub parent: Option<String>,
    pub properties: Vec<ResolvedProperty>,
    pub world: Transform2D,
}

/// An immutable snapshot of the scene at one instant.
#[derive(Debug, PartialEq, Eq, Clone)]
pub struct EvaluatedScene {
    pub time: i64,
    pub nodes: Vec<EvaluatedNode>,
}

/// A property value resolved at time `t`: static values pass through,
/// animated ones sample their curve.
pub open spec fn resolve_pv(p: PropertyValue, t: int) -> Value {
    match p {
        PropertyValue::Static(v) => v,
        PropertyValue::Animated(c) => curve_eval(c, t),
    }
}

/// The node's property of this name, resolved at `t`, if present.
pub open spec fn prop_value(n: SceneNode, name: Seq<char>, t: int) -> Option<Value> {
    if has_prop(n.properties@, name) {
        Some(resolve_pv(n.properties@[prop_idx(n.properties@, name)].value, t))
    } else {
        None
    }
}

/// A scalar out of a resolved value; anything else falls back to the
/// default.
pub open spec fn scalar_or(v: Option<Value>, dflt: int) -> int {
    match v {
        Some(Value::Scalar(s)) => s as int,
        _ => dflt,
    }
}

/// A point out of a resolved value; anything else falls back to the
/// defaults.
pub open spec fn point_x_or(v: Option<Value>, dflt: int) -> int {
    match v {
        Some(Value::Point(p)) => p.x as int,
        _ => dflt,
    }
}

/// The y component of a resolved point value, with a default.
pub open spec fn point_y_or(v: Option<Value>, dflt: int) -> int {
    match v {
        Some(Value::Point(p)) => p.y as int,
        _ => dflt,
    }
}

/// A node's local transform at `t`: built from its resolved `position`,
/// `rotation` and `scale` properties (absent or unlike-kinded ones fall back
/// to the identity defaults), applied scale first, then rotation, then
/// translation.
pub open spec fn local_of(n: SceneNode, t: int) -> Transform2D {
    trs_spec(
        point_x_or(prop_value(n, "position"@, t), 0),
        point_y_or(prop_value(n, "position"@, t), 0),
        scalar_or(prop_value(n, "rotation"@, t), 0),
        point_x_or(prop_value(n, "scale"@, t), SCALE as int),
        point_y_or(prop_value(n, "scale"@, t), SCALE as int),
    )
}

/// The world transform of entry `i`, if the parent chain reaches a root
/// within `k` steps: a root's world transform is its local transform, and a
/// child's is its parent's world transform composed with its own local one.
pub open spec fn world_fuel(s: Seq<GraphEntry>, t: int, i: int, k: nat) -> Option<Transform2D>
    decreases k,
{
    if !(0 <= i < s.len()) {
        None
    } else {
        match parent_id(s[i]) {
            None => Some(local_of(s[i].node, t)),
            Some(p) => if k == 0 {
                None
            } else {
                match world_fuel(s, t, idx_of(s, p), (k - 1) as nat) {
                    None => None,
                    Some(w) => Some(compose_spec(w, local_of(s[i].node, t))),
                }
            },
        }
    }
}

/// The world transform of entry `i` (well defined on well-formed graphs).
pub open spec fn node_world(s: Seq<GraphEntry>, t: int, i: int) -> Transform2D {
    let k = choose|k: nat| world_fuel(s, t, i, k) is Some;
    world_fuel(s, t, i, k)->Some_0
}

/// More fuel never changes a defined world transform.
pub proof fn lemma_world_fuel_mono(s: Seq<GraphEntry>, t: int, i: int, k1: nat, k2: nat)
    requires
        k1 <= k2,
        world_fuel(s, t, i, k1) is Some,
    ensures
        world_fuel(s, t, i, k2) == world_fuel(s, t, i, k1),
    decreases k1,
{
    if 0 <= i < s.len() {
        match parent_id(s[i]) {
            None => {},
            Some(p) => {
                lemma_world_fuel_mono(s, t, idx_of(s, p), (k1 - 1) as nat, (k2 - 1) as nat);
            },
        }
    }
}

/// On a graph with a depth witness every world transform is defined.
pub proof fn lemma_world_exists(s: Seq<GraphEntry>, t: int, d: Map<Seq<char>, nat>, i: int)
    requires
        ids_unique(s),
        depth_inv(s, d),
        0 <= i < s.len(),
    ensures
        world_fuel(s, t, i, d[entry_id(s[i])]) is Some,
    decreases d[entry_id(s[i])],
{
    match parent_id(s[i]) {
        None => {},
        Some(p) => {
            let j = idx_of(s, p);
            assert(0 <= j < s.len() && entry_id(s[j]) == p);
            lemma_world_exists(s, t, d, j);
            lemma_world_fuel_mono(s, t, j, d[p], (d[entry_id(s[i])] - 1) as nat);
        },
    }
}

/// Any defined fuel value gives the world transform.
pub proof fn lemma_node_world_is(s: Seq<GraphEntry>, t: int, i: int, k: nat, w: Transform2D)
    requires
        world_fuel(s, t, i, k) == Some(w),
    ensures
        node_world(s, t, i) == w,
{
    let k2 = choose|k2: nat| world_fuel(s, t, i, k2) is Some;
    if k <= k2 {
        lemma_world_fuel_mono(s, t, i, k, k2);
    } else {
        lemma_world_fuel_mono(s, t, i, k2, k);
    }
}

/// The snapshot `r` is exactly the evaluation of `g` at `t`: same shape,
/// every property resolved through its curve, every world transform composed
/// along the parent chain.
pub open spec fn evaluated_matches(r: EvaluatedScene, g: SceneGraph, t: int) -> bool {
    &&& r.time == t
    &&& r.nodes@.len() == g.entries@.len()
    &&& forall|i: int| 0 <= i < g.entries@.len() ==> {
        let e = g.entries@[i];
        let en = #[trigger] r.nodes@[i];
        &&& en.id@ == entry_id(e)
        &&& en.name@ == e.node.name@
        &&& en.node_type@ == e.node.node_type@
        &&& (match en.parent {
            Some(p) => Some(p@),
            None => None::<Seq<char>>,
        }) == parent_id(e)
        &&& en.properties@.len() == e.node.properties@.len()
        &&& (forall|j: int| 0 <= j < e.node.properties@.len() ==> (#[trigger] en.properties@[j]).name@
            == e.node.properties@[j].name@ && en.properties@[j].value == resolve_pv(
            e.node.properties@[j].value,
            t,
        ))
        &&& en.world == node_world(g.entries@, t, i)
        &&& t2d_wf(en.world)
    }
}

/// Resolve the node's property of this name at time `t`.
fn prop_value_exec(n: &SceneNode, key: &String, t: i64) -> (r: Option<Value>)
    requires
        node_wf(*n),
        -MAX_COORD <= t <= MAX_COORD,
    ensures
        r == prop_value(*n, key@, t as int),
        r matches Some(v) ==> value_bounded(v, VAL_LIMIT as int),
{
    match find_prop(&n.properties, key) {
        Some(i) => {
            proof {
                lemma_prop_idx_self(n.properties@, i as int);
            }
            match &n.properties[i].value {
                PropertyValue::Static(v) => Some(v.duplicate()),
                PropertyValue::Animated(c) => Some(c.evaluate(t)),
            }
        },
        None => None,
    }
}

/// Build the node's local transform at time `t`.
fn local_exec(n: &SceneNode, t: i64) -> (r: Transform2D)
    requires
        node_wf(*n),
        -MAX_COORD <= t <= MAX_COORD,
    ensures
        r == local_of(*n, t as int),
        t2d_wf(r),
{
    let pos_key: String = "position".to_owned();
    let rot_key: String = "rotation".to_owned();
    let scale_key: String = "scale".to_owned();
    let mut px: i64 = 0;
    let mut py: i64 = 0;
    match prop_value_exec(n, &pos_key, t) {
        Some(Value::Point(p)) => {
            px = p.x;
            py = p.y;
        },
        _ => {},
    }
    let mut rot: i64 = 0;
    match prop_value_exec(n, &rot_key, t) {
        Some(Value::Scalar(s)) => {
            rot = s;
        },
        _ => {},
    }
    let mut sx: i64 = SCALE;
    let mut sy: i64 = SCALE;
    match prop_value_exec(n, &scale_key, t) {
        Some(Value::Point(p)) => {
            sx = p.x;
            sy = p.y;
        },
        _ => {},
    }
    trs_exec(px, py, rot, sx, sy)
}

/// Compute the world transform of entry `i` by walking the parent chain.
fn world_exec(
    entries: &Vec<GraphEntry>,
    locals: &Vec<Transform2D>,
    i: usize,
    d: Ghost<Map<Seq<char>, nat>>,
    t: Ghost<int>,
) -> (w: Transform2D)
    requires
        ids_unique(entries@),
        depth_inv(entries@, d@),
        i < entries@.len(),
        locals@.len() == entries@.len(),
        forall|j: int| 0 <= j < entries@.len() ==> #[trigger] locals@[j] == local_of(
            entries@[j].node,
            t@,
        ) && t2d_wf(locals@[j]),
    ensures
        w == node_world(entries@, t@, i as int),
        t2d_wf(w),
    decreases d@[entry_id(entries@[i as int])],
{
    match &entries[i].parent {
        None => {
            proof {
                assert(world_fuel(entries@, t@, i as int, 0) == Some(locals@[i as int]));
                lemma_node_world_is(entries@, t@, i as int, 0, locals@[i as int]);
            }
            locals[i]
        },
        Some(q) => {
            match find_entry(entries, q) {
                Some(qi) => {
                    proof {
                        lemma_idx_of_self(entries@, qi as int);
                        assert(idx_of(entries@, q@) == qi as int);
                    }
                    let wp = world_exec(entries, locals, qi, d, t);
                    let w = wp.compose(&locals[i]);
                    proof {
                        let s = entries@;
                        lemma_world_exists(s, t@, d@, qi as int);
                        let kq = d@[entry_id(s[qi as int])];
                        let wv = world_fuel(s, t@, qi as int, kq)->Some_0;
                        lemma_node_world_is(s, t@, qi as int, kq, wv);
                        assert(wp == wv);
                        assert(world_fuel(s, t@, i as int, kq + 1) == Some(w));
                        lemma_node_world_is(s, t@, i as int, kq + 1, w);
                    }
                    w
                },
                None => {
                    proof {
                        assert(false);
                    }
                    locals[i]
                },
            }
        },
    }
}

/// Evaluate the whole graph at time `t`: a pure function of the graph and
/// the time, resolving every property and composing every world transform.
pub fn evaluate_graph(g: &SceneGraph, t: i64) -> (r: EvaluatedScene)
    requires
        graph_wf(*g),
        -MAX_COORD <= t <= MAX_COORD,
    ensures
        evaluated_matches(r, *g, t as int),
{
    let ghost d = choose|d: Map<Seq<char>, nat>| depth_inv(g.entries@, d);
    let n = g.entries.len();
    let mut locals: Vec<Transform2D> = Vec::new();
    let mut i: usize = 0;
    while i < n
        invariant
            n == g.entries@.len(),
            graph_wf(*g),
            -MAX_COORD <= t <= MAX_COORD,
            i <= n,
            locals@.len() == i,
            forall|j: int| 0 <= j < i ==> #[trigger] locals@[j] == local_of(
                g.entries@[j].node,
                t as int,
            ) && t2d_wf(locals@[j]),
        decreases n - i,
    {
        locals.push(local_exec(&g.entries[i].node, t));
        i += 1;
    }
    let mut nodes: Vec<EvaluatedNode> = Vec::new();
    let mut i: usize = 0;
    while i < n
        invariant
            n == g.entries@.len(),
            graph_wf(*g),
            depth_inv(g.entries@, d),
            -MAX_COORD <= t <= MAX_COORD,
            i <= n,
            locals@.len() == n,
            forall|j: int| 0 <= j < n ==> #[trigger] locals@[j] == local_of(
                g.entries@[j].node,
                t as int,
            ) && t2d_wf(locals@[j]),
            nodes@.len() == i,
            forall|k: int| 0 <= k < i ==> {
                let e = g.entries@[k];
                let en = #[trigger] nodes@[k];
                &&& en.id@ == entry_id(e)
                &&& en.name@ == e.node.name@
                &&& en.node_type@ == e.node.node_type@
                &&& (match en.parent {
                    Some(p) => Some(p@),
                    None => None::<Seq<char>>,
                }) == parent_id(e)
                &&& en.properties@.len() == e.node.properties@.len()
                &&& (forall|j: int|
                    0 <= j < e.node.properties@.len() ==> (#[trigger] en.properties@[j]).name@
                        == e.node.properties@[j].name@ && en.properties@[j].value == resolve_pv(
                        e.node.properties@[j].value,
                        t as int,
                    ))
                &&& en.world == node_world(g.entries@, t as int, k)
                &&& t2d_wf(en.world)
            },
        decreases n - i,
    {
        let e = &g.entries[i];
        let mut rprops: Vec<ResolvedProperty> = Vec::new();
        let mut j: usize = 0;
        while j < e.node.properties.len()
            invariant
                node_wf(e.node),
                -MAX_COORD <= t <= MAX_COORD,
                j <= e.node.properties@.len(),
                rprops@.len() == j,
                forall|k: int| 0 <= k < j ==> (#[trigger] rprops@[k]).name@
                    == e.node.properties@[k].name@ && rprops@[k].value == resolve_pv(
                    e.node.properties@[k].value,
                    t as int,
                ),
            decreases e.node.properties@.len() - j,
        {
            let value = match &e.node.properties[j].value {
                PropertyValue::Static(v) => v.duplicate(),
                PropertyValue::Animated(c) => c.evaluate(t),
            };
            rprops.push(ResolvedProperty { name: e.node.properties[j].name.clone(), value });
            j += 1;
        }
        let w = world_exec(&g.entries, &locals, i, Ghost(d), Ghost(t as int));
        nodes.push(
            EvaluatedNode {
                id: e.node.id.clone(),
                name: e.node.name.clone(),
                node_type: e.node.node_type.clone(),
                parent: match &e.parent {
                    Some(p) => Some(p.clone()),
                    None => None,
                },
                properties: rprops,
                world: w,
            },
        );
        i += 1;
    }
    EvaluatedScene { time: t, nodes }
}

/// Same snapshot content, node by node.
pub open spec fn scene_eq(a: EvaluatedScene, b: EvaluatedScene) -> bool {
    &&& a.time == b.time
    &&& a.nodes@.len() == b.nodes@.len()
    &&& forall|i: int| 0 <= i < a.nodes@.len() ==> {
        let x = #[trigger] a.nodes@[i];
        let y = b.nodes@[i];
        &&& x.id@ == y.id@
        &&& x.name@ == y.name@
        &&& x.node_type@ == y.node_type@
        &&& (match x.parent {
            Some(p) => Some(p@),
            None => None::<Seq<char>>,
        }) == (match y.parent {
            Some(p) => Some(p@),
            None => None::<Seq<char>>,
        })
        &&& x.properties@.len() == y.properties@.len()
        &&& (forall|j: int| 0 <= j < x.properties@.len() ==> (#[trigger] x.properties@[j]).name@
            == y.properties@[j].name@ && x.properties@[j].value == y.properties@[j].value)
        &&& x.world == y.world
    }
}

/// Evaluation is deterministic: two snapshots of the same graph at the same
/// time agree node for node, property for property, transform for
/// transform.
pub proof fn lemma_evaluation_deterministic(
    g: SceneGraph,
    t: int,
    r1: EvaluatedScene,
    r2: EvaluatedScene,
)
    requires
        evaluated_matches(r1, g, t),
        evaluated_matches(r2, g, t),
    ensures
        scene_eq(r1, r2),
{
}

/// Hierarchy composition: a root's world transform is its local transform,
/// and a child's world transform is its parent's world transform composed
/// with the child's local transform.
pub proof fn lemma_world_composition(g: SceneGraph, t: int, i: int)
    requires
        graph_wf(g),
        0 <= i < g.entries@.len(),
    ensures
        parent_id(g.entries@[i]) is None ==> node_world(g.entries@, t, i) == local_of(
            g.entries@[i].node,
            t,
        ),
        parent_id(g.entries@[i]) matches Some(p) ==> node_world(g.entries@, t, i) == compose_spec(
            node_world(g.entries@, t, idx_of(g.entries@, p)),
            local_of(g.entries@[i].node, t),
        ),
{
    let s = g.entries@;
    let d = choose|d: Map<Seq<char>, nat>| depth_inv(s, d);
    match parent_id(s[i]) {
        None => {
            assert(world_fuel(s, t, i, 0) == Some(local_of(s[i].node, t)));
            lemma_node_world_is(s, t, i, 0, local_of(s[i].node, t));
        },
        Some(p) => {
            let j = idx_of(s, p);
            assert(0 <= j < s.len() && entry_id(s[j]) == p);
            lemma_world_exists(s, t, d, j);
            let kj = d[entry_id(s[j])];
            let wj = world_fuel(s, t, j, kj)->Some_0;
            lemma_node_world_is(s, t, j, kj, wj);
            assert(world_fuel(s, t, i, kj + 1) == Some(
                compose_spec(wj, local_of(s[i].node, t)),
            ));
            lemma_node_world_is(s, t, i, kj + 1, compose_spec(wj, local_of(s[i].node, t)));
        },
    }
}

} // verus!
