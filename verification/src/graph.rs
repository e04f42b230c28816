//! The scene graph: an ordered forest of nodes addressed by string ids.
//!
//! The graph owns every node; nodes refer to each other only by id. Each
//! entry records its parent (if any), and child order is the order in which
//! nodes were inserted. The forest shape — no node is its own ancestor, no
//! node has two parents — is kept by construction: the invariant carries an
//! abstract depth witness in which every child sits strictly below its
//! parent, so parent chains always reach a root.

use vstd::prelude::*;
use crate::curve::{AnimationCurve, Value, curve_wf, value_bounded};
use crate::errors::AnimatorError;
use crate::math::MAX_COORD;

verus! {

/// A property is either a fixed value or driven by an animation curve.
#[derive(Debug, PartialEq, Eq, Clone)]
pub enum PropertyValue {
    Static(Value),
    Animated(AnimationCurve),
}

/// A named property of a node.
#[derive(Debug, PartialEq, Eq, Clone)]
pub struct Property {
    pub name: String,
    pub value: PropertyValue,
}

/// A named, typed entity of the scene, holding its property set.
#[derive(Debug, PartialEq, Eq, Clone)]
pub struct SceneNode {
    pub id: String,
    pub name: String,
    pub node_type: String,
    pub properties: Vec<Property>,
}

/// One slot of the graph: a node and the id of its parent, if any.
#[derive(Debug, PartialEq, Eq, Clone)]
pub struct GraphEntry {
    pub node: SceneNode,
    pub parent: Option<String>,
}

/// An ordered forest of scene nodes.
#[derive(Debug, PartialEq, Eq, Clone)]
pub struct SceneGraph {
    pub entries: Vec<GraphEntry>,
}

/// A property value in range: static values within the coordinate range,
/// curves well formed.
pub open spec fn pv_wf(p: PropertyValue) -> bool {
    match p {
        PropertyValue::Static(v) => value_bounded(v, MAX_COORD as int),
        PropertyValue::Animated(c) => curve_wf(c),
    }
}

/// Node invariant: property names nonempty and unique, property values in
/// range.
pub open spec fn node_wf(n: SceneNode) -> bool {
    &&& forall|i: int| 0 <= i < n.properties@.len() ==> (#[trigger] n.properties@[i]).name@.len()
        > 0 && pv_wf(n.properties@[i].value)
    &&& forall|i: int, j: int| 0 <= i < j < n.properties@.len() ==> n.properties@[i].name@
        != n.properties@[j].name@
}

/// The id of an entry's node.
pub open spec fn entry_id(e: GraphEntry) -> Seq<char> {
    e.node.id@
}

/// The id of an entry's parent, if any.
pub open spec fn parent_id(e: GraphEntry) -> Option<Seq<char>> {
    match e.parent {
        Some(p) => Some(p@),
        None => None,
    }
}

/// Some entry carries this id.
pub open spec fn has_id(s: Seq<GraphEntry>, id: Seq<char>) -> bool {
    exists|i: int| 0 <= i < s.len() && entry_id(#[trigger] s[i]) == id
}

/// The index of the entry carrying this id (unique when ids are unique).
pub open spec fn idx_of(s: Seq<GraphEntry>, id: Seq<char>) -> int {
    choose|i: int| 0 <= i < s.len() && entry_id(#[trigger] s[i]) == id
}

/// No two entries share an id.
pub open spec fn ids_unique(s: Seq<GraphEntry>) -> bool {
    forall|i: int, j: int| 0 <= i < j < s.len() ==> entry_id(s[i]) != entry_id(s[j])
}

/// `d` is a depth witness: every parent link points at an existing entry that
/// sits strictly higher (smaller depth). The existence of such a witness is
/// exactly the forest property.
pub open spec fn depth_inv(s: Seq<GraphEntry>, d: Map<Seq<char>, nat>) -> bool {
    forall|i: int| 0 <= i < s.len() ==> {
        &&& d.contains_key(entry_id(#[trigger] s[i]))
        &&& match parent_id(s[i]) {
            Some(p) => has_id(s, p) && d.contains_key(p) && d[p] < d[entry_id(s[i])],
            None => true,
        }
    }
}

/// Graph invariant: unique ids, well-formed nodes, and a forest shape.
pub open spec fn graph_wf(g: SceneGraph) -> bool {
    &&& ids_unique(g.entries@)
    &&& forall|i: int| 0 <= i < g.entries@.len() ==> node_wf((#[trigger] g.entries@[i]).node)
    &&& exists|d: Map<Seq<char>, nat>| depth_inv(g.entries@, d)
}

/// `a` lies on the parent chain of `x` (or is `x` itself) within `k` steps.
pub open spec fn anc_fuel(s: Seq<GraphEntry>, a: Seq<char>, x: Seq<char>, k: nat) -> bool
    decreases k,
{
    ||| x == a
    ||| (k > 0 && has_id(s, x) && match parent_id(s[idx_of(s, x)]) {
        Some(p) => anc_fuel(s, a, p, (k - 1) as nat),
        None => false,
    })
}

/// `a` is `x` or one of `x`'s ancestors.
pub open spec fn reaches(s: Seq<GraphEntry>, a: Seq<char>, x: Seq<char>) -> bool {
    exists|k: nat| anc_fuel(s, a, x, k)
}

/// With unique ids, the index of an entry's own id is that entry.
pub proof fn lemma_idx_of_self(s: Seq<GraphEntry>, i: int)
    requires
        ids_unique(s),
        0 <= i < s.len(),
    ensures
        idx_of(s, entry_id(s[i])) == i,
        has_id(s, entry_id(s[i])),
{
    assert(0 <= i < s.len() && entry_id(s[i]) == entry_id(s[i]));
    let j = idx_of(s, entry_id(s[i]));
    if j != i {
        if j < i {
            assert(entry_id(s[j]) != entry_id(s[i]));
        } else {
            assert(entry_id(s[i]) != entry_id(s[j]));
        }
    }
}

/// Walking one parent link up preserves reachability of `a`.
pub proof fn lemma_reaches_fold(s: Seq<GraphEntry>, a: Seq<char>, x: Seq<char>, p: Seq<char>)
    requires
        has_id(s, x),
        parent_id(s[idx_of(s, x)]) == Some(p),
        reaches(s, a, p),
    ensures
        reaches(s, a, x),
{
    let k = choose|k: nat| anc_fuel(s, a, p, k);
    assert(anc_fuel(s, a, x, k + 1));
}

/// If `a` reaches `x` and `x` is not `a`, it reaches `x`'s parent.
pub proof fn lemma_reaches_unfold(s: Seq<GraphEntry>, a: Seq<char>, x: Seq<char>)
    requires
        reaches(s, a, x),
        x != a,
    ensures
        has_id(s, x),
        parent_id(s[idx_of(s, x)]) is Some,
        reaches(s, a, parent_id(s[idx_of(s, x)])->Some_0),
{
    let k = choose|k: nat| anc_fuel(s, a, x, k);
    assert(k > 0);
    let p = parent_id(s[idx_of(s, x)])->Some_0;
    assert(anc_fuel(s, a, p, (k - 1) as nat));
}

/// Same property content: same name, and the same value or the same curve.
pub open spec fn pv_eq(a: PropertyValue, b: PropertyValue) -> bool {
    match (a, b) {
        (PropertyValue::Static(x), PropertyValue::Static(y)) => x == y,
        (PropertyValue::Animated(c), PropertyValue::Animated(e)) => c.keys@ == e.keys@,
        _ => false,
    }
}

/// Same property: same name and content.
pub open spec fn prop_eq(a: Property, b: Property) -> bool {
    a.name@ == b.name@ && pv_eq(a.value, b.value)
}

/// Same node content: same id, name, type and properties.
pub open spec fn node_eq(a: SceneNode, b: SceneNode) -> bool {
    &&& a.id@ == b.id@
    &&& a.name@ == b.name@
    &&& a.node_type@ == b.node_type@
    &&& a.properties@.len() == b.properties@.len()
    &&& forall|i: int| 0 <= i < a.properties@.len() ==> prop_eq(
        #[trigger] a.properties@[i],
        b.properties@[i],
    )
}

/// Same entry content: same node and parent.
pub open spec fn entry_eq(a: GraphEntry, b: GraphEntry) -> bool {
    node_eq(a.node, b.node) && parent_id(a) == parent_id(b)
}

/// Same graph content, entry by entry.
pub open spec fn graph_eq(a: SceneGraph, b: SceneGraph) -> bool {
    a.entries@.len() == b.entries@.len() && forall|i: int| 0 <= i < a.entries@.len() ==> entry_eq(
        #[trigger] a.entries@[i],
        b.entries@[i],
    )
}

impl PropertyValue {
    /// Deep copy (the derived clone is opaque to verification).
    pub fn duplicate(&self) -> (r: PropertyValue)
        ensures
            pv_eq(r, *self),
    {
        match self {
            PropertyValue::Static(v) => PropertyValue::Static(v.duplicate()),
            PropertyValue::Animated(c) => PropertyValue::Animated(c.duplicate()),
        }
    }
}

impl Property {
    /// Deep copy (the derived clone is opaque to verification).
    pub fn duplicate(&self) -> (r: Property)
        ensures
            prop_eq(r, *self),
    {
        Property { name: self.name.clone(), value: self.value.duplicate() }
    }
}

/// Find the property carrying `name`.
pub(crate) fn find_prop(props: &Vec<Property>, name: &String) -> (r: Option<usize>)
    ensures
        match r {
            Some(i) => i < props@.len() && props@[i as int].name@ == name@,
            None => !has_prop(props@, name@),
        },
{
    let mut j: usize = 0;
    while j < props.len()
        invariant
            j <= props@.len(),
            forall|k: int| 0 <= k < j ==> (#[trigger] props@[k]).name@ != name@,
        decreases props@.len() - j,
    {
        if props[j].name == *name {
            return Some(j);
        }
        j += 1;
    }
    None
}

impl SceneNode {
    /// A node with the given id, display name and type, and no properties.
    pub fn new(id: &str, name: &str, node_type: &str) -> (r: SceneNode)
        ensures
            r.id@ == id@,
            r.name@ == name@,
            r.node_type@ == node_type@,
            r.properties@.len() == 0,
            node_wf(r),
    {
        SceneNode {
            id: id.to_owned(),
            name: name.to_owned(),
            node_type: node_type.to_owned(),
            properties: Vec::new(),
        }
    }

    /// Set or replace a property. An empty name is rejected as
    /// `InvalidProperty`; otherwise an existing property of that name is
    /// replaced in place and a new name is appended.
    pub fn set_property(&mut self, name: &str, value: PropertyValue) -> (r: Result<
        (),
        AnimatorError,
    >)
        requires
            node_wf(*old(self)),
            pv_wf(value),
        ensures
            node_wf(*final(self)),
            final(self).id@ == old(self).id@,
            final(self).name@ == old(self).name@,
            final(self).node_type@ == old(self).node_type@,
            r is Ok <==> name@.len() > 0,
            r is Err ==> *final(self) == *old(self) && (r matches Err(e) && e matches
                AnimatorError::InvalidProperty { property } && property@ == name@),
            r is Ok ==> {
                let ps = old(self).properties@;
                if has_prop(ps, name@) {
                    let i = prop_idx(ps, name@);
                    &&& final(self).properties@.len() == ps.len()
                    &&& (forall|j: int|
                        0 <= j < ps.len() && j != i ==> final(self).properties@[j] == ps[j])
                    &&& final(self).properties@[i].name@ == name@
                    &&& final(self).properties@[i].value == value
                } else {
                    &&& final(self).properties@.len() == ps.len() + 1
                    &&& final(self).properties@.subrange(0, ps.len() as int) == ps
                    &&& final(self).properties@.last().name@ == name@
                    &&& final(self).properties@.last().value == value
                }
            },
    {
        if name.is_empty() {
            return Err(AnimatorError::InvalidProperty { property: name.to_owned() });
        }
        let key: String = name.to_owned();
        let ghost ps = self.properties@;
        match find_prop(&self.properties, &key) {
            Some(i) => {
                proof {
                    let w = prop_idx(ps, name@);
                    assert(0 <= w < ps.len() && ps[w].name@ == name@);
                    if w != i as int {
                        if w < i as int {
                            assert(ps[w].name@ != ps[i as int].name@);
                        } else {
                            assert(ps[i as int].name@ != ps[w].name@);
                        }
                    }
                }
                let _old_prop = self.properties.remove(i);
                self.properties.insert(i, Property { name: key, value });
                proof {
                    let ps2 = self.properties@;
                    assert(ps2 =~= ps.update(i as int, ps2[i as int]));
                }
            },
            None => {
                self.properties.push(Property { name: key, value });
                proof {
                    let ps2 = self.properties@;
                    assert(ps2.subrange(0, ps.len() as int) =~= ps);
                    assert forall|a: int, b: int| 0 <= a < b < ps2.len() implies ps2[a].name@
                        != ps2[b].name@ by {
                        if b == ps.len() as int {
                            assert(ps2[a] == ps[a]);
                        }
                    }
                }
            },
        }
        Ok(())
    }

    /// Deep copy (the derived clone is opaque to verification).
    pub fn duplicate(&self) -> (r: SceneNode)
        ensures
            node_eq(r, *self),
    {
        let mut props: Vec<Property> = Vec::new();
        let mut j: usize = 0;
        while j < self.properties.len()
            invariant
                j <= self.properties@.len(),
                props@.len() == j,
                forall|k: int| 0 <= k < j ==> prop_eq(#[trigger] props@[k], self.properties@[k]),
            decreases self.properties@.len() - j,
        {
            props.push(self.properties[j].duplicate());
            j += 1;
        }
        SceneNode {
            id: self.id.clone(),
            name: self.name.clone(),
            node_type: self.node_type.clone(),
            properties: props,
        }
    }
}

impl GraphEntry {
    /// Deep copy (the derived clone is opaque to verification).
    pub fn duplicate(&self) -> (r: GraphEntry)
        ensures
            entry_eq(r, *self),
    {
        GraphEntry {
            node: self.node.duplicate(),
            parent: match &self.parent {
                Some(p) => Some(p.clone()),
                None => None,
            },
        }
    }
}

/// The entry, its parent link cleared when it pointed at `id`.
pub open spec fn detach_entry(e: GraphEntry, id: Seq<char>) -> GraphEntry {
    if parent_id(e) == Some(id) {
        GraphEntry { node: e.node, parent: None }
    } else {
        e
    }
}

/// The ids of entries among the first `n` whose parent is `id`, in order.
pub open spec fn child_ids(s: Seq<GraphEntry>, id: Seq<char>, n: int) -> Seq<Seq<char>>
    decreases n,
{
    if n <= 0 {
        Seq::empty()
    } else {
        let pre = child_ids(s, id, n - 1);
        if parent_id(s[n - 1]) == Some(id) {
            pre.push(entry_id(s[n - 1]))
        } else {
            pre
        }
    }
}

/// The ids of entries among the first `n` that have no parent, in order.
pub open spec fn root_ids(s: Seq<GraphEntry>, n: int) -> Seq<Seq<char>>
    decreases n,
{
    if n <= 0 {
        Seq::empty()
    } else {
        let pre = root_ids(s, n - 1);
        if parent_id(s[n - 1]) is None {
            pre.push(entry_id(s[n - 1]))
        } else {
            pre
        }
    }
}

/// Some property carries this name.
pub open spec fn has_prop(ps: Seq<Property>, name: Seq<char>) -> bool {
    exists|i: int| 0 <= i < ps.len() && (#[trigger] ps[i]).name@ == name
}

/// The index of the property carrying this name.
pub open spec fn prop_idx(ps: Seq<Property>, name: Seq<char>) -> int {
    choose|i: int| 0 <= i < ps.len() && (#[trigger] ps[i]).name@ == name
}

/// With unique names, the index of a property's own name is that property.
pub proof fn lemma_prop_idx_self(ps: Seq<Property>, i: int)
    requires
        forall|a: int, b: int| 0 <= a < b < ps.len() ==> ps[a].name@ != ps[b].name@,
        0 <= i < ps.len(),
    ensures
        prop_idx(ps, ps[i].name@) == i,
        has_prop(ps, ps[i].name@),
{
    assert(0 <= i < ps.len() && ps[i].name@ == ps[i].name@);
    let j = prop_idx(ps, ps[i].name@);
    if j != i {
        if j < i {
            assert(ps[j].name@ != ps[i].name@);
        } else {
            assert(ps[i].name@ != ps[j].name@);
        }
    }
}

/// Walk the parent chain from `entries[start]` and report whether it passes
/// through (or starts at) the node with id `a`.
fn ancestor_check(entries: &Vec<GraphEntry>, a: &String, start: usize) -> (r: bool)
    requires
        ids_unique(entries@),
        exists|d: Map<Seq<char>, nat>| depth_inv(entries@, d),
        start < entries@.len(),
    ensures
        r == reaches(entries@, a@, entry_id(entries@[start as int])),
{
    let ghost s = entries@;
    let ghost d = choose|d: Map<Seq<char>, nat>| depth_inv(s, d);
    let mut cur: usize = start;
    loop
        invariant
            cur < s.len(),
            entries@ == s,
            ids_unique(s),
            depth_inv(s, d),
            reaches(s, a@, entry_id(s[start as int])) == reaches(s, a@, entry_id(s[cur as int])),
        decreases d[entry_id(s[cur as int])],
    {
        if entries[cur].node.id == *a {
            proof {
                assert(anc_fuel(s, a@, a@, 0));
            }
            return true;
        }
        proof {
            lemma_idx_of_self(s, cur as int);
        }
        match &entries[cur].parent {
            None => {
                proof {
                    if reaches(s, a@, entry_id(s[cur as int])) {
                        lemma_reaches_unfold(s, a@, entry_id(s[cur as int]));
                    }
                }
                return false;
            },
            Some(q) => {
                match find_entry(entries, q) {
                    Some(qi) => {
                        proof {
                            let cid = entry_id(s[cur as int]);
                            let qid = q@;
                            assert(parent_id(s[idx_of(s, cid)]) == Some(qid));
                            if reaches(s, a@, cid) {
                                lemma_reaches_unfold(s, a@, cid);
                            }
                            if reaches(s, a@, qid) {
                                lemma_reaches_fold(s, a@, cid, qid);
                            }
                            lemma_idx_of_self(s, qi as int);
                        }
                        cur = qi;
                    },
                    None => {
                        proof {
                            assert(false);
                        }
                        return false;
                    },
                }
            },
        }
    }
}

/// Find the entry carrying `id`.
pub(crate) fn find_entry(entries: &Vec<GraphEntry>, id: &String) -> (r: Option<usize>)
    ensures
        match r {
            Some(i) => i < entries@.len() && entry_id(entries@[i as int]) == id@,
            None => !has_id(entries@, id@),
        },
{
    let mut j: usize = 0;
    while j < entries.len()
        invariant
            j <= entries@.len(),
            forall|k: int| 0 <= k < j ==> entry_id(#[trigger] entries@[k]) != id@,
        decreases entries@.len() - j,
    {
        if entries[j].node.id == *id {
            return Some(j);
        }
        j += 1;
    }
    None
}

impl SceneGraph {
    /// An empty graph.
    pub fn new() -> (r: SceneGraph)
        ensures
            r.entries@.len() == 0,
            graph_wf(r),
    {
        let g = SceneGraph { entries: Vec::new() };
        proof {
            let d = Map::<Seq<char>, nat>::empty();
            assert(depth_inv(g.entries@, d));
        }
        g
    }

    /// Number of nodes in the graph.
    pub fn node_count(&self) -> (r: usize)
        ensures
            r == self.entries@.len(),
    {
        self.entries.len()
    }

    /// Whether a node with this id is present.
    pub fn contains(&self, id: &String) -> (r: bool)
        ensures
            r == has_id(self.entries@, id@),
    {
        match find_entry(&self.entries, id) {
            Some(_) => true,
            None => false,
        }
    }

    /// Insert a node, as a root when `parent` is `None`, else as the last
    /// child of `parent`. Fails with `DuplicateId` when the id is taken and
    /// with `NodeNotFound` when the parent is absent; a failed insert leaves
    /// the graph unchanged.
    pub fn insert(&mut self, node: SceneNode, parent: Option<&String>) -> (r: Result<
        (),
        AnimatorError,
    >)
        requires
            graph_wf(*old(self)),
            node_wf(node),
        ensures
            graph_wf(*final(self)),
            r is Ok <==> !has_id(old(self).entries@, node.id@) && (match parent {
                Some(p) => has_id(old(self).entries@, p@),
                None => true,
            }),
            r is Err ==> *final(self) == *old(self),
            has_id(old(self).entries@, node.id@) ==> r == Err::<(), AnimatorError>(
                AnimatorError::DuplicateId { node_id: node.id },
            ),
            (match parent {
                Some(p) => !has_id(old(self).entries@, node.id@) && !has_id(
                    old(self).entries@,
                    p@,
                ) ==> r == Err::<(), AnimatorError>(AnimatorError::NodeNotFound { node_id: *p }),
                None => true,
            }),
            r is Ok ==> final(self).entries@.len() == old(self).entries@.len() + 1
                && final(self).entries@.subrange(0, old(self).entries@.len() as int)
                == old(self).entries@ && final(self).entries@.last().node == node && parent_id(
                final(self).entries@.last(),
            ) == (match parent {
                Some(p) => Some(p@),
                None => None::<Seq<char>>,
            }),
    {
        if self.contains(&node.id) {
            return Err(AnimatorError::DuplicateId { node_id: node.id });
        }
        let ghost nid: Seq<char> = node.id@;
        let parent_field: Option<String> = match parent {
            Some(p) => {
                if !self.contains(p) {
                    return Err(AnimatorError::NodeNotFound { node_id: p.clone() });
                }
                Some(p.clone())
            },
            None => None,
        };
        let ghost s = self.entries@;
        self.entries.push(GraphEntry { node, parent: parent_field });
        proof {
            let d = choose|d: Map<Seq<char>, nat>| depth_inv(s, d);
            let d2 = match parent {
                Some(p) => d.insert(nid, (d[p@] + 1) as nat),
                None => d.insert(nid, 0),
            };
            let s2 = self.entries@;
            assert(s2.len() == s.len() + 1 && s2.last().node.id@ == nid);
            assert forall|i: int| 0 <= i < s2.len() implies {
                &&& d2.contains_key(entry_id(#[trigger] s2[i]))
                &&& match parent_id(s2[i]) {
                    Some(q) => has_id(s2, q) && d2.contains_key(q) && d2[q] < d2[entry_id(s2[i])],
                    None => true,
                }
            } by {
                if i < s.len() {
                    assert(s2[i] == s[i]);
                    assert(entry_id(s[i]) != nid);
                    match parent_id(s[i]) {
                        Some(q) => {
                            let j = idx_of(s, q);
                            assert(0 <= j < s.len() && entry_id(s[j]) == q);
                            assert(s2[j] == s[j]);
                            assert(has_id(s2, q));
                            assert(q != nid);
                        },
                        None => {},
                    }
                } else {
                    match parent_id(s2[i]) {
                        Some(q) => {
                            let j = idx_of(s, q);
                            assert(0 <= j < s.len() && entry_id(s[j]) == q);
                            assert(s2[j] == s[j]);
                            assert(has_id(s2, q));
                            assert(q != nid);
                        },
                        None => {},
                    }
                }
            }
            assert(depth_inv(s2, d2));
            assert(final(self).entries@.subrange(0, s.len() as int) =~= s);
        }
        Ok(())
    }

    /// Remove the node with this id. Its children become roots — they are
    /// detached, never deleted. Fails with `NodeNotFound` when the id is
    /// absent, leaving the graph unchanged.
    pub fn remove(&mut self, id: &String) -> (r: Result<(), AnimatorError>)
        requires
            graph_wf(*old(self)),
        ensures
            graph_wf(*final(self)),
            r is Ok <==> has_id(old(self).entries@, id@),
            r is Err ==> *final(self) == *old(self) && r == Err::<(), AnimatorError>(
                AnimatorError::NodeNotFound { node_id: *id },
            ),
            r is Ok ==> final(self).entries@.len() == old(self).entries@.len() - 1 && (forall|
                j: int,
            |
                0 <= j < final(self).entries@.len() ==> final(self).entries@[j] == detach_entry(
                    #[trigger] old(self).entries@.remove(idx_of(old(self).entries@, id@))[j],
                    id@,
                )),
    {
        let idx = match find_entry(&self.entries, id) {
            None => {
                return Err(AnimatorError::NodeNotFound { node_id: id.clone() });
            },
            Some(i) => i,
        };
        let ghost s = self.entries@;
        proof {
            lemma_idx_of_self(s, idx as int);
        }
        let ghost s1 = s.remove(idx as int);
        self.entries.remove(idx);
        let mut j: usize = 0;
        while j < self.entries.len()
            invariant
                self.entries@.len() == s1.len(),
                j <= s1.len(),
                forall|k: int| 0 <= k < j ==> self.entries@[k] == detach_entry(
                    #[trigger] s1[k],
                    id@,
                ),
                forall|k: int| j <= k < s1.len() ==> self.entries@[k] == s1[k],
            decreases s1.len() - j,
        {
            let clear = match &self.entries[j].parent {
                Some(p) => *p == *id,
                None => false,
            };
            if clear {
                let ghost before = self.entries@;
                let mut e = self.entries.remove(j);
                e.parent = None;
                self.entries.insert(j, e);
                proof {
                    assert(self.entries@ =~= before.update(
                        j as int,
                        GraphEntry { node: before[j as int].node, parent: None },
                    ));
                }
            }
            j += 1;
        }
        proof {
            let s2 = self.entries@;
            let d = choose|d: Map<Seq<char>, nat>| depth_inv(s, d);
            assert forall|k: int| 0 <= k < s2.len() implies {
                &&& d.contains_key(entry_id(#[trigger] s2[k]))
                &&& match parent_id(s2[k]) {
                    Some(q) => has_id(s2, q) && d.contains_key(q) && d[q] < d[entry_id(s2[k])],
                    None => true,
                }
            } by {
                let ko: int = if k < idx as int {
                    k
                } else {
                    k + 1
                };
                assert(s1[k] == s[ko]);
                assert(s2[k] == detach_entry(s1[k], id@));
                match parent_id(s2[k]) {
                    Some(q) => {
                        assert(parent_id(s[ko]) == Some(q));
                        assert(q != id@);
                        let m = idx_of(s, q);
                        assert(0 <= m < s.len() && entry_id(s[m]) == q);
                        assert(m != idx as int);
                        let m2: int = if m < idx as int {
                            m
                        } else {
                            m - 1
                        };
                        assert(s1[m2] == s[m]);
                        assert(s2[m2] == detach_entry(s1[m2], id@));
                        assert(entry_id(s2[m2]) == q);
                        assert(has_id(s2, q));
                    },
                    None => {},
                }
            }
            assert(depth_inv(s2, d));
            assert forall|a: int, b: int| 0 <= a < b < s2.len() implies entry_id(s2[a])
                != entry_id(s2[b]) by {
                let ao: int = if a < idx as int {
                    a
                } else {
                    a + 1
                };
                let bo: int = if b < idx as int {
                    b
                } else {
                    b + 1
                };
                assert(s1[a] == s[ao] && s1[b] == s[bo]);
                assert(s2[a] == detach_entry(s1[a], id@) && s2[b] == detach_entry(s1[b], id@));
                assert(entry_id(s2[a]) == entry_id(s[ao]));
                assert(entry_id(s2[b]) == entry_id(s[bo]));
            }
            assert forall|k: int| 0 <= k < s2.len() implies node_wf(
                (#[trigger] s2[k]).node,
            ) by {
                let ko: int = if k < idx as int {
                    k
                } else {
                    k + 1
                };
                assert(s1[k] == s[ko]);
                assert(s2[k] == detach_entry(s1[k], id@));
                assert(s2[k].node == s[ko].node);
            }
        }
        Ok(())
    }

    /// Change the parent of the node with this id, or make it a root.
    /// Fails with `NodeNotFound` when either id is absent, and with
    /// `CycleDetected` when the new parent is the node itself or one of its
    /// descendants; a failed reparent leaves the graph unchanged.
    pub fn reparent(&mut self, id: &String, new_parent: Option<&String>) -> (r: Result<
        (),
        AnimatorError,
    >)
        requires
            graph_wf(*old(self)),
        ensures
            graph_wf(*final(self)),
            r is Err ==> *final(self) == *old(self),
            !has_id(old(self).entries@, id@) ==> r == Err::<(), AnimatorError>(
                AnimatorError::NodeNotFound { node_id: *id },
            ),
            (match new_parent {
                Some(p) => {
                    &&& (has_id(old(self).entries@, id@) && !has_id(old(self).entries@, p@)
                        ==> r == Err::<(), AnimatorError>(AnimatorError::NodeNotFound {
                        node_id: *p,
                    }))
                    &&& (has_id(old(self).entries@, id@) && has_id(old(self).entries@, p@) ==> {
                        &&& (r is Ok <==> !reaches(old(self).entries@, id@, p@))
                        &&& (reaches(old(self).entries@, id@, p@) ==> r == Err::<
                            (),
                            AnimatorError,
                        >(AnimatorError::CycleDetected))
                    })
                },
                None => has_id(old(self).entries@, id@) ==> r is Ok,
            }),
            r is Ok ==> {
                let i = idx_of(old(self).entries@, id@);
                &&& final(self).entries@.len() == old(self).entries@.len()
                &&& (forall|j: int|
                    0 <= j < old(self).entries@.len() && j != i ==> final(self).entries@[j]
                        == old(self).entries@[j])
                &&& final(self).entries@[i].node == old(self).entries@[i].node
                &&& parent_id(final(self).entries@[i]) == (match new_parent {
                    Some(p) => Some(p@),
                    None => None::<Seq<char>>,
                })
            },
    {
        let a_idx = match find_entry(&self.entries, id) {
            None => {
                return Err(AnimatorError::NodeNotFound { node_id: id.clone() });
            },
            Some(i) => i,
        };
        let ghost s = self.entries@;
        proof {
            lemma_idx_of_self(s, a_idx as int);
        }
        let new_field: Option<String> = match new_parent {
            None => None,
            Some(p) => {
                let p_idx = match find_entry(&self.entries, p) {
                    None => {
                        return Err(AnimatorError::NodeNotFound { node_id: p.clone() });
                    },
                    Some(i) => i,
                };
                if ancestor_check(&self.entries, id, p_idx) {
                    return Err(AnimatorError::CycleDetected);
                }
                Some(p.clone())
            },
        };
        let ghost new_pid: Option<Seq<char>> = match new_parent {
            Some(p) => Some(p@),
            None => None,
        };
        let mut e = self.entries.remove(a_idx);
        e.parent = new_field;
        self.entries.insert(a_idx, e);
        proof {
            let ai = a_idx as int;
            let aid = id@;
            let s2 = self.entries@;
            assert(s2 =~= s.update(
                ai,
                GraphEntry {
                    node: s[ai].node,
                    parent: match new_parent {
                        Some(p) => Some(*p),
                        None => None,
                    },
                },
            ));
            assert forall|k: int| 0 <= k < s2.len() implies entry_id(#[trigger] s2[k])
                == entry_id(s[k]) && s2[k].node == s[k].node by {}
            let d = choose|d: Map<Seq<char>, nat>| depth_inv(s, d);
            match new_parent {
                None => {
                    let d2 = d.insert(aid, 0);
                    assert forall|i: int| 0 <= i < s2.len() implies {
                        &&& d2.contains_key(entry_id(#[trigger] s2[i]))
                        &&& match parent_id(s2[i]) {
                            Some(q) => has_id(s2, q) && d2.contains_key(q) && d2[q] < d2[entry_id(
                                s2[i],
                            )],
                            None => true,
                        }
                    } by {
                        if i != ai {
                            assert(s2[i] == s[i]);
                            assert(entry_id(s[i]) != aid);
                            match parent_id(s[i]) {
                                Some(q) => {
                                    let m = idx_of(s, q);
                                    assert(0 <= m < s.len() && entry_id(s[m]) == q);
                                    assert(entry_id(s2[m]) == q);
                                    assert(has_id(s2, q));
                                },
                                None => {},
                            }
                        }
                    }
                    assert(depth_inv(s2, d2));
                },
                Some(p) => {
                    let pid = p@;
                    let cc: nat = (d[pid] + 1) as nat;
                    let d2 = Map::<Seq<char>, nat>::new(
                        |x: Seq<char>| d.contains_key(x),
                        |x: Seq<char>|
                            if reaches(s, aid, x) {
                                (d[x] + cc) as nat
                            } else {
                                d[x]
                            },
                    );
                    assert(reaches(s, aid, aid)) by {
                        assert(anc_fuel(s, aid, aid, 0));
                    }
                    assert forall|i: int| 0 <= i < s2.len() implies {
                        &&& d2.contains_key(entry_id(#[trigger] s2[i]))
                        &&& match parent_id(s2[i]) {
                            Some(q) => has_id(s2, q) && d2.contains_key(q) && d2[q] < d2[entry_id(
                                s2[i],
                            )],
                            None => true,
                        }
                    } by {
                        assert(entry_id(s2[i]) == entry_id(s[i]));
                        if i == ai {
                            let m = idx_of(s, pid);
                            assert(0 <= m < s.len() && entry_id(s[m]) == pid);
                            assert(entry_id(s2[m]) == pid);
                            assert(has_id(s2, pid));
                            assert(parent_id(s2[i]) == Some(pid));
                            assert(d2[pid] == d[pid]);
                            assert(d2[aid] == d[aid] + cc);
                        } else {
                            assert(s2[i] == s[i]);
                            let eid = entry_id(s[i]);
                            assert(eid != aid);
                            match parent_id(s[i]) {
                                Some(q) => {
                                    let m = idx_of(s, q);
                                    assert(0 <= m < s.len() && entry_id(s[m]) == q);
                                    assert(entry_id(s2[m]) == q);
                                    assert(has_id(s2, q));
                                    lemma_idx_of_self(s, i);
                                    if reaches(s, aid, eid) {
                                        lemma_reaches_unfold(s, aid, eid);
                                        assert(reaches(s, aid, q));
                                        assert(d2[eid] == d[eid] + cc);
                                        assert(d2[q] == d[q] + cc);
                                    } else {
                                        if reaches(s, aid, q) {
                                            lemma_reaches_fold(s, aid, eid, q);
                                        }
                                        assert(d2[eid] == d[eid]);
                                        assert(d2[q] == d[q]);
                                    }
                                },
                                None => {},
                            }
                        }
                    }
                    assert(depth_inv(s2, d2));
                },
            }
        }
        Ok(())
    }

    /// The ids of this node's children, in insertion order, or
    /// `NodeNotFound`.
    pub fn children_of(&self, id: &String) -> (r: Result<Vec<String>, AnimatorError>)
        ensures
            r is Ok <==> has_id(self.entries@, id@),
            r matches Ok(v) ==> v@.map_values(|x: String| x@) == child_ids(
                self.entries@,
                id@,
                self.entries@.len() as int,
            ),
            r is Err ==> r == Err::<Vec<String>, AnimatorError>(AnimatorError::NodeNotFound {
                node_id: *id,
            }),
    {
        if !self.contains(id) {
            return Err(AnimatorError::NodeNotFound { node_id: id.clone() });
        }
        let mut out: Vec<String> = Vec::new();
        let mut j: usize = 0;
        while j < self.entries.len()
            invariant
                j <= self.entries@.len(),
                out@.map_values(|x: String| x@) == child_ids(self.entries@, id@, j as int),
            decreases self.entries@.len() - j,
        {
            let is_child = match &self.entries[j].parent {
                Some(p) => *p == *id,
                None => false,
            };
            if is_child {
                out.push(self.entries[j].node.id.clone());
            }
            proof {
                assert(out@.map_values(|x: String| x@) =~= child_ids(
                    self.entries@,
                    id@,
                    j as int + 1,
                ));
            }
            j += 1;
        }
        Ok(out)
    }

    /// The ids of all root nodes, in insertion order.
    pub fn roots(&self) -> (r: Vec<String>)
        ensures
            r@.map_values(|x: String| x@) == root_ids(self.entries@, self.entries@.len() as int),
    {
        let mut out: Vec<String> = Vec::new();
        let mut j: usize = 0;
        while j < self.entries.len()
            invariant
                j <= self.entries@.len(),
                out@.map_values(|x: String| x@) == root_ids(self.entries@, j as int),
            decreases self.entries@.len() - j,
        {
            let is_root = match &self.entries[j].parent {
                Some(_) => false,
                None => true,
            };
            if is_root {
                out.push(self.entries[j].node.id.clone());
            }
            proof {
                assert(out@.map_values(|x: String| x@) =~= root_ids(self.entries@, j as int + 1));
            }
            j += 1;
        }
        out
    }

    /// Deep copy of the whole graph (the derived clone is opaque to
    /// verification).
    pub fn duplicate(&self) -> (r: SceneGraph)
        ensures
            graph_eq(r, *self),
    {
        let mut entries: Vec<GraphEntry> = Vec::new();
        let mut j: usize = 0;
        while j < self.entries.len()
            invariant
                j <= self.entries@.len(),
                entries@.len() == j,
                forall|k: int| 0 <= k < j ==> entry_eq(#[trigger] entries@[k], self.entries@[k]),
            decreases self.entries@.len() - j,
        {
            entries.push(self.entries[j].duplicate());
            j += 1;
        }
        SceneGraph { entries }
    }

    /// A deep copy of the node with this id, or `NodeNotFound`.
    pub fn get(&self, id: &String) -> (r: Result<SceneNode, AnimatorError>)
        requires
            graph_wf(*self),
        ensures
            r is Ok <==> has_id(self.entries@, id@),
            r matches Ok(n) ==> node_eq(n, self.entries@[idx_of(self.entries@, id@)].node)
                && n.id@ == id@,
            r is Err ==> r == Err::<SceneNode, AnimatorError>(AnimatorError::NodeNotFound {
                node_id: *id,
            }),
    {
        match find_entry(&self.entries, id) {
            Some(i) => {
                proof {
                    lemma_idx_of_self(self.entries@, i as int);
                }
                Ok(self.entries[i].node.duplicate())
            },
            None => Err(AnimatorError::NodeNotFound { node_id: id.clone() }),
        }
    }
}

} // verus!
