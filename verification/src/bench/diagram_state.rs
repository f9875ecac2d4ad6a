//! The diagram that an agent edits during the diagram benchmark.
//!
//! A diagram is a list of nodes and a list of edges between them, with a
//! version that counts the operations applied so far.  Operations arrive in
//! batches asked against a version; a batch is applied whole or not at all,
//! and the state keeps node ids distinct and every edge attached to nodes
//! that exist.
use vstd::prelude::*;

use crate::text::{
    append_str, append_vec, chars_of, decimal, decimal_vec, join, join_vec, seq_eq, slice_vec, split_by, split_vec,
    str_eq, string_of, to_lowercase, unicode_lowercase, views, views_v, contains, contains_vec,
    CharClass,
};

verus! {

/// What `char::to_uppercase` gives for a character (one or more characters,
/// from the Unicode tables).
pub uninterp spec fn unicode_uppercase(c: char) -> Seq<char>;

/// std's `char::to_uppercase`, collected into a string: the result is the
/// function `unicode_uppercase` of the character; nothing more is stated.
#[verifier::external_body]
fn char_to_uppercase(c: char) -> (r: String)
    ensures
        r@ == unicode_uppercase(c),
{
    c.to_uppercase().collect::<String>()
}

// ---------------------------------------------------------------------------
// The state and its model
// ---------------------------------------------------------------------------

#[derive(Debug)]
pub struct DiagramNode {
    pub id: String,
    pub kind: String,
    pub label: String,
    pub description: String,
}

#[derive(Debug)]
pub struct DiagramEdge {
    pub id: String,
    pub source: String,
    pub target: String,
    pub label: String,
}

pub struct NodeModel {
    pub id: Seq<char>,
    pub kind: Seq<char>,
    pub label: Seq<char>,
    pub description: Seq<char>,
}

pub struct EdgeModel {
    pub id: Seq<char>,
    pub source: Seq<char>,
    pub target: Seq<char>,
    pub label: Seq<char>,
}

impl View for DiagramNode {
    type V = NodeModel;

    open spec fn view(&self) -> NodeModel {
        NodeModel {
            id: self.id@,
            kind: self.kind@,
            label: self.label@,
            description: self.description@,
        }
    }
}

impl View for DiagramEdge {
    type V = EdgeModel;

    open spec fn view(&self) -> EdgeModel {
        EdgeModel {
            id: self.id@,
            source: self.source@,
            target: self.target@,
            label: self.label@,
        }
    }
}

impl DiagramNode {
    pub fn copy(&self) -> (r: DiagramNode)
        ensures
            r@ == self@,
    {
        DiagramNode {
            id: self.id.clone(),
            kind: self.kind.clone(),
            label: self.label.clone(),
            description: self.description.clone(),
        }
    }
}

impl DiagramEdge {
    pub fn copy(&self) -> (r: DiagramEdge)
        ensures
            r@ == self@,
    {
        DiagramEdge {
            id: self.id.clone(),
            source: self.source.clone(),
            target: self.target.clone(),
            label: self.label.clone(),
        }
    }
}

pub open spec fn node_views(v: Seq<DiagramNode>) -> Seq<NodeModel> {
    Seq::new(v.len(), |i: int| v[i]@)
}

pub open spec fn edge_views(v: Seq<DiagramEdge>) -> Seq<EdgeModel> {
    Seq::new(v.len(), |i: int| v[i]@)
}

/// Some node has the id.
pub open spec fn has_node(nodes: Seq<NodeModel>, id: Seq<char>) -> bool {
    exists|i: int| 0 <= i < nodes.len() && #[trigger] nodes[i].id == id
}

/// Some edge has the id.
pub open spec fn has_edge(edges: Seq<EdgeModel>, id: Seq<char>) -> bool {
    exists|i: int| 0 <= i < edges.len() && #[trigger] edges[i].id == id
}

/// No two nodes share an id.
pub open spec fn ids_distinct(nodes: Seq<NodeModel>) -> bool {
    forall|i: int, j: int|
        0 <= i < nodes.len() && 0 <= j < nodes.len() && i != j ==> (#[trigger] nodes[i]).id != (
        #[trigger] nodes[j]).id
}

/// Every edge starts and ends at a node of the diagram.
pub open spec fn edges_attached(nodes: Seq<NodeModel>, edges: Seq<EdgeModel>) -> bool {
    forall|i: int|
        0 <= i < edges.len() ==> has_node(nodes, #[trigger] edges[i].source) && has_node(
            nodes,
            edges[i].target,
        )
}

/// A diagram being edited: nodes, edges and the number of operations applied
/// so far.
#[derive(Debug)]
pub struct DiagramState {
    pub nodes: Vec<DiagramNode>,
    pub edges: Vec<DiagramEdge>,
    pub version: u64,
}

impl DiagramState {
    /// No two nodes share an id, and every edge of the diagram is attached
    /// to nodes that exist.
    pub open spec fn well_formed(&self) -> bool {
        &&& ids_distinct(node_views(self.nodes@))
        &&& edges_attached(node_views(self.nodes@), edge_views(self.edges@))
    }

    /// An empty diagram at version 0.
    pub fn new() -> (r: DiagramState)
        ensures
            r.nodes@.len() == 0,
            r.edges@.len() == 0,
            r.version == 0,
            r.well_formed(),
    {
        DiagramState { nodes: Vec::new(), edges: Vec::new(), version: 0 }
    }
}

// ---------------------------------------------------------------------------
// Operations
// ---------------------------------------------------------------------------

/// One requested edit.  A field is `None` where the request did not carry it
/// as a string.
#[derive(Debug)]
pub struct DiagramOp {
    pub op: Option<String>,
    pub id: Option<String>,
    pub node_type: Option<String>,
    pub label: Option<String>,
    pub description: Option<String>,
    pub source: Option<String>,
    pub target: Option<String>,
}

pub struct OpModel {
    pub op: Option<Seq<char>>,
    pub id: Option<Seq<char>>,
    pub node_type: Option<Seq<char>>,
    pub label: Option<Seq<char>>,
    pub description: Option<Seq<char>>,
    pub source: Option<Seq<char>>,
    pub target: Option<Seq<char>>,
}

pub open spec fn ov(o: Option<String>) -> Option<Seq<char>> {
    match o {
        Some(s) => Some(s@),
        None => None,
    }
}

impl View for DiagramOp {
    type V = OpModel;

    open spec fn view(&self) -> OpModel {
        OpModel {
            op: ov(self.op),
            id: ov(self.id),
            node_type: ov(self.node_type),
            label: ov(self.label),
            description: ov(self.description),
            source: ov(self.source),
            target: ov(self.target),
        }
    }
}

pub open spec fn op_views(v: Seq<DiagramOp>) -> Seq<OpModel> {
    Seq::new(v.len(), |i: int| v[i]@)
}

pub open spec fn or_text(o: Option<Seq<char>>, d: Seq<char>) -> Seq<char> {
    match o {
        Some(s) => s,
        None => d,
    }
}

/// The first character upper-cased (`char::to_uppercase`), the rest kept.
pub open spec fn upper_first(w: Seq<char>) -> Seq<char> {
    if w.len() == 0 {
        w
    } else {
        unicode_uppercase(w[0]) + w.skip(1)
    }
}

pub open spec fn map_upper_first(parts: Seq<Seq<char>>) -> Seq<Seq<char>> {
    Seq::new(parts.len(), |i: int| upper_first(parts[i]))
}

/// `api-gateway` becomes `Api Gateway`: the pieces between hyphens, each with
/// its first character upper-cased, joined by spaces (empty pieces kept).
pub open spec fn hyphen_title(id: Seq<char>) -> Seq<char> {
    join(map_upper_first(split_by(id, (seq!['-'], false, false))), " "@)
}

/// The label of a new node: the given one, the id where none was given, and
/// the id in title case where the given one is empty.
pub open spec fn node_label(id: Seq<char>, label: Option<Seq<char>>) -> Seq<char> {
    let l = or_text(label, id);
    if l.len() == 0 {
        hyphen_title(id)
    } else {
        l
    }
}

/// The nodes, the edges and the messages of the applied and refused
/// operations, as a batch goes along.
pub struct DiagramModel {
    pub nodes: Seq<NodeModel>,
    pub edges: Seq<EdgeModel>,
    pub applied: Seq<Seq<char>>,
    pub conflicts: Seq<Seq<char>>,
}

pub open spec fn op_tag(op: Seq<char>, id: Seq<char>) -> Seq<char> {
    op + ":"@ + id
}

pub open spec fn refuse(m: DiagramModel, op: Seq<char>, id: Seq<char>, why: Seq<char>) -> DiagramModel {
    DiagramModel { conflicts: m.conflicts.push(op_tag(op, id) + " - "@ + why), ..m }
}

pub open spec fn accept(m: DiagramModel, op: Seq<char>, id: Seq<char>) -> DiagramModel {
    DiagramModel { applied: m.applied.push(op_tag(op, id)), ..m }
}

pub open spec fn quoted(before: Seq<char>, name: Seq<char>, after: Seq<char>) -> Seq<char> {
    before + name + after
}

/// Keeps the nodes whose id is not `id`.
pub open spec fn node_other_than(id: Seq<char>) -> spec_fn(NodeModel) -> bool {
    |n: NodeModel| n.id != id
}

/// Keeps the edges that neither start nor end at `id`.
pub open spec fn edge_away_from(id: Seq<char>) -> spec_fn(EdgeModel) -> bool {
    |e: EdgeModel| e.source != id && e.target != id
}

/// Keeps the edges whose id is not `id`.
pub open spec fn edge_other_than(id: Seq<char>) -> spec_fn(EdgeModel) -> bool {
    |e: EdgeModel| e.id != id
}

/// A node with the fields that the operation gives replaced; its id kept.
pub open spec fn updated_node(n: NodeModel, o: OpModel) -> NodeModel {
    NodeModel {
        id: n.id,
        kind: or_text(o.node_type, n.kind),
        label: or_text(o.label, n.label),
        description: or_text(o.description, n.description),
    }
}

/// Each node with the id updated by the operation, the others kept.
pub open spec fn update_nodes(nodes: Seq<NodeModel>, id: Seq<char>, o: OpModel) -> Seq<NodeModel> {
    Seq::new(nodes.len(), |i: int| if nodes[i].id == id { updated_node(nodes[i], o) } else { nodes[i] })
}

/// An edge with the label replaced where the operation gives one.
pub open spec fn updated_edge(e: EdgeModel, o: OpModel) -> EdgeModel {
    EdgeModel { label: or_text(o.label, e.label), ..e }
}

/// Each edge with the id updated by the operation, the others kept.
pub open spec fn update_edges(edges: Seq<EdgeModel>, id: Seq<char>, o: OpModel) -> Seq<EdgeModel> {
    Seq::new(edges.len(), |i: int| if edges[i].id == id { updated_edge(edges[i], o) } else { edges[i] })
}

/// What one operation does.
pub open spec fn op_step(m: DiagramModel, o: OpModel) -> DiagramModel {
    let op = or_text(o.op, Seq::empty());
    let id = or_text(o.id, Seq::empty());
    if id.len() == 0 && op != "setViewport"@ {
        m
    } else if op == "addNode"@ {
        if has_node(m.nodes, id) {
            refuse(m, op, id, quoted("Node '"@, id, "' already exists"@))
        } else {
            let node = NodeModel {
                id: id,
                kind: or_text(o.node_type, "concept"@),
                label: node_label(id, o.label),
                description: or_text(o.description, Seq::empty()),
            };
            accept(DiagramModel { nodes: m.nodes.push(node), ..m }, op, id)
        }
    } else if op == "addEdge"@ {
        let source = or_text(o.source, Seq::empty());
        let target = or_text(o.target, Seq::empty());
        if source.len() == 0 || target.len() == 0 {
            refuse(m, op, id, "Edge source and target required"@)
        } else if !has_node(m.nodes, source) {
            refuse(m, op, id, quoted("Source node '"@, source, "' not found"@))
        } else if !has_node(m.nodes, target) {
            refuse(m, op, id, quoted("Target node '"@, target, "' not found"@))
        } else {
            let edge = EdgeModel {
                id: id,
                source: source,
                target: target,
                label: or_text(o.label, Seq::empty()),
            };
            accept(DiagramModel { edges: m.edges.push(edge), ..m }, op, id)
        }
    } else if op == "removeNode"@ {
        let nodes = m.nodes.filter(node_other_than(id));
        let edges = m.edges.filter(edge_away_from(id));
        accept(DiagramModel { nodes: nodes, edges: edges, ..m }, op, id)
    } else if op == "removeEdge"@ {
        let edges = m.edges.filter(edge_other_than(id));
        accept(DiagramModel { edges: edges, ..m }, op, id)
    } else if op == "updateNode"@ {
        if !has_node(m.nodes, id) {
            refuse(m, op, id, quoted("Node '"@, id, "' not found"@))
        } else {
            accept(DiagramModel { nodes: update_nodes(m.nodes, id, o), ..m }, op, id)
        }
    } else if op == "updateEdge"@ {
        if !has_edge(m.edges, id) {
            refuse(m, op, id, quoted("Edge '"@, id, "' not found"@))
        } else {
            accept(DiagramModel { edges: update_edges(m.edges, id, o), ..m }, op, id)
        }
    } else if op == "setViewport"@ {
        accept(m, op, id)
    } else {
        refuse(m, op, id, "Unknown operation: "@ + op)
    }
}

/// What a batch does, operation by operation.
pub open spec fn ops_fold(m: DiagramModel, ops: Seq<OpModel>) -> DiagramModel
    decreases ops.len(),
{
    if ops.len() == 0 {
        m
    } else {
        op_step(ops_fold(m, ops.drop_last()), ops.last())
    }
}

/// The model of a diagram and of the messages gathered so far.
pub open spec fn model_of(
    nodes: Seq<DiagramNode>,
    edges: Seq<DiagramEdge>,
    applied: Seq<String>,
    conflicts: Seq<String>,
) -> DiagramModel {
    DiagramModel {
        nodes: node_views(nodes),
        edges: edge_views(edges),
        applied: views(applied),
        conflicts: views(conflicts),
    }
}

/// The operations of a batch tried one after the other, from the model of
/// the diagram before it.
pub open spec fn batch_outcome(nodes: Seq<NodeModel>, edges: Seq<EdgeModel>, ops: Seq<OpModel>) -> DiagramModel {
    ops_fold(
        DiagramModel { nodes: nodes, edges: edges, applied: Seq::empty(), conflicts: Seq::empty() },
        ops,
    )
}

/// The diagram and the messages after a whole batch, with the version.
pub struct BatchModel {
    pub nodes: Seq<NodeModel>,
    pub edges: Seq<EdgeModel>,
    pub applied: Seq<Seq<char>>,
    pub conflicts: Seq<Seq<char>>,
    pub version: nat,
}

/// Why a batch asked against another version than the current one is refused.
pub open spec fn version_conflict(base: nat, current: nat) -> Seq<char> {
    "Version conflict: base_version "@ + decimal(base) + " does not match current version "@
        + decimal(current)
}

/// What a batch asked against version `base` does to a diagram at `version`.
/// It is refused whole when the versions differ, and when any of its
/// operations is refused; the diagram and version then stay as they were and
/// nothing counts as applied.  Otherwise every operation takes effect and the
/// version grows by the number applied.
pub open spec fn apply_batch(
    nodes: Seq<NodeModel>,
    edges: Seq<EdgeModel>,
    version: nat,
    base: nat,
    ops: Seq<OpModel>,
) -> BatchModel {
    if base != version {
        BatchModel {
            nodes: nodes,
            edges: edges,
            applied: Seq::empty(),
            conflicts: seq![version_conflict(base, version)],
            version: version,
        }
    } else {
        let m = batch_outcome(nodes, edges, ops);
        if m.conflicts.len() == 0 {
            BatchModel {
                nodes: m.nodes,
                edges: m.edges,
                applied: m.applied,
                conflicts: m.conflicts,
                version: version + m.applied.len(),
            }
        } else {
            BatchModel {
                nodes: nodes,
                edges: edges,
                applied: Seq::empty(),
                conflicts: m.conflicts,
                version: version,
            }
        }
    }
}

// ---------------------------------------------------------------------------
// Lemmas
// ---------------------------------------------------------------------------

/// What a filter keeps was in the sequence.
pub proof fn lemma_filter_from<A>(s: Seq<A>, pred: spec_fn(A) -> bool, i: int)
    requires
        0 <= i < s.filter(pred).len(),
    ensures
        s.contains(s.filter(pred)[i]),
    decreases s.len(),
{
    reveal(Seq::filter);
    if s.len() > 0 {
        let sub = s.drop_last().filter(pred);
        if i < sub.len() {
            lemma_filter_from(s.drop_last(), pred, i);
            let j = choose|j: int| 0 <= j < s.drop_last().len() && s.drop_last()[j] == sub[i];
            assert(s[j] == s.filter(pred)[i]);
        } else {
            assert(s[s.len() - 1] == s.filter(pred)[i]);
        }
    }
}

/// One operation adds at most one message of each kind.
proof fn lemma_step_counts(m: DiagramModel, o: OpModel)
    ensures
        op_step(m, o).applied.len() <= m.applied.len() + 1,
        op_step(m, o).applied.len() >= m.applied.len(),
{
}

/// Each operation keeps every edge attached to existing nodes.
pub proof fn lemma_step_attached(m: DiagramModel, o: OpModel)
    requires
        edges_attached(m.nodes, m.edges),
    ensures
        edges_attached(op_step(m, o).nodes, op_step(m, o).edges),
{
    let op = or_text(o.op, Seq::empty());
    let id = or_text(o.id, Seq::empty());
    let r = op_step(m, o);
    if id.len() == 0 && op != "setViewport"@ {
    } else if op == "addNode"@ {
        if !has_node(m.nodes, id) {
            assert(r.edges == m.edges);
            assert(r.nodes.len() == m.nodes.len() + 1);
            assert forall|i: int| 0 <= i < r.edges.len() implies has_node(
                r.nodes,
                #[trigger] r.edges[i].source,
            ) && has_node(r.nodes, r.edges[i].target) by {
                assert(has_node(m.nodes, m.edges[i].source));
                assert(has_node(m.nodes, m.edges[i].target));
                let a = choose|k: int| 0 <= k < m.nodes.len() && m.nodes[k].id == m.edges[i].source;
                let b = choose|k: int| 0 <= k < m.nodes.len() && m.nodes[k].id == m.edges[i].target;
                assert(r.nodes[a] == m.nodes[a]);
                assert(r.nodes[b] == m.nodes[b]);
            }
        }
    } else if op == "addEdge"@ {
        assert(r.nodes == m.nodes);
        assert forall|i: int| 0 <= i < r.edges.len() implies has_node(
            r.nodes,
            #[trigger] r.edges[i].source,
        ) && has_node(r.nodes, r.edges[i].target) by {
            if i < m.edges.len() {
                assert(r.edges[i] == m.edges[i]);
                assert(has_node(m.nodes, m.edges[i].source));
                assert(has_node(m.nodes, m.edges[i].target));
            }
        }
    } else if op == "removeNode"@ {
        let keep = node_other_than(id);
        let away = edge_away_from(id);
        assert(r.nodes == m.nodes.filter(keep));
        assert(r.edges == m.edges.filter(away));
        assert forall|i: int| 0 <= i < r.edges.len() implies has_node(
            r.nodes,
            #[trigger] r.edges[i].source,
        ) && has_node(r.nodes, r.edges[i].target) by {
            lemma_filter_from(m.edges, away, i);
            m.edges.lemma_filter_pred(away, i);
            let e = r.edges[i];
            let j = choose|j: int| 0 <= j < m.edges.len() && m.edges[j] == e;
            assert(m.edges[j] == e);
            assert(has_node(m.nodes, m.edges[j].source));
            assert(has_node(m.nodes, m.edges[j].target));
            let a = choose|k: int| 0 <= k < m.nodes.len() && m.nodes[k].id == m.edges[j].source;
            let b = choose|k: int| 0 <= k < m.nodes.len() && m.nodes[k].id == m.edges[j].target;
            m.nodes.lemma_filter_contains(keep, a);
            m.nodes.lemma_filter_contains(keep, b);
            let x = choose|x: int| 0 <= x < r.nodes.len() && r.nodes[x] == m.nodes[a];
            let y = choose|y: int| 0 <= y < r.nodes.len() && r.nodes[y] == m.nodes[b];
            assert(r.nodes[x].id == e.source);
            assert(r.nodes[y].id == e.target);
        }
    } else if op == "removeEdge"@ {
        let keep = edge_other_than(id);
        assert(r.nodes == m.nodes);
        assert(r.edges == m.edges.filter(keep));
        assert forall|i: int| 0 <= i < r.edges.len() implies has_node(
            r.nodes,
            #[trigger] r.edges[i].source,
        ) && has_node(r.nodes, r.edges[i].target) by {
            lemma_filter_from(m.edges, keep, i);
            let j = choose|j: int| 0 <= j < m.edges.len() && m.edges[j] == r.edges[i];
            assert(m.edges[j] == r.edges[i]);
            assert(has_node(m.nodes, m.edges[j].source));
            assert(has_node(m.nodes, m.edges[j].target));
        }
    } else if op == "updateNode"@ {
        if has_node(m.nodes, id) {
            assert(r.edges == m.edges);
            assert forall|i: int| 0 <= i < r.edges.len() implies has_node(
                r.nodes,
                #[trigger] r.edges[i].source,
            ) && has_node(r.nodes, r.edges[i].target) by {
                assert(has_node(m.nodes, m.edges[i].source));
                assert(has_node(m.nodes, m.edges[i].target));
                let a = choose|k: int| 0 <= k < m.nodes.len() && m.nodes[k].id == m.edges[i].source;
                let b = choose|k: int| 0 <= k < m.nodes.len() && m.nodes[k].id == m.edges[i].target;
                assert(r.nodes[a].id == m.nodes[a].id);
                assert(r.nodes[b].id == m.nodes[b].id);
            }
        }
    } else if op == "updateEdge"@ {
        if has_edge(m.edges, id) {
            assert(r.nodes == m.nodes);
            assert forall|i: int| 0 <= i < r.edges.len() implies has_node(
                r.nodes,
                #[trigger] r.edges[i].source,
            ) && has_node(r.nodes, r.edges[i].target) by {
                assert(r.edges[i].source == m.edges[i].source);
                assert(r.edges[i].target == m.edges[i].target);
                assert(has_node(m.nodes, m.edges[i].source));
                assert(has_node(m.nodes, m.edges[i].target));
            }
        }
    } else {
        assert(r.nodes == m.nodes);
        assert(r.edges == m.edges);
    }
}

/// A filter keeps node ids distinct.
proof fn lemma_filter_distinct(s: Seq<NodeModel>, pred: spec_fn(NodeModel) -> bool)
    requires
        ids_distinct(s),
    ensures
        ids_distinct(s.filter(pred)),
    decreases s.len(),
{
    reveal(Seq::filter);
    if s.len() > 0 {
        let d = s.drop_last();
        assert forall|i: int, j: int|
            0 <= i < d.len() && 0 <= j < d.len() && i != j implies (#[trigger] d[i]).id != (
            #[trigger] d[j]).id by {
            assert(d[i] == s[i] && d[j] == s[j]);
        }
        lemma_filter_distinct(d, pred);
        let f = s.filter(pred);
        let fd = d.filter(pred);
        if pred(s.last()) {
            assert(f == fd.push(s.last()));
            assert forall|i: int, j: int|
                0 <= i < f.len() && 0 <= j < f.len() && i != j implies (#[trigger] f[i]).id != (
                #[trigger] f[j]).id by {
                if i < fd.len() && j < fd.len() {
                    assert(f[i] == fd[i] && f[j] == fd[j]);
                } else if i < fd.len() {
                    lemma_filter_from(d, pred, i);
                    let k = choose|k: int| 0 <= k < d.len() && d[k] == fd[i];
                    assert(s[k] == f[i]);
                    assert(s[s.len() - 1] == f[j]);
                } else {
                    lemma_filter_from(d, pred, j);
                    let k = choose|k: int| 0 <= k < d.len() && d[k] == fd[j];
                    assert(s[k] == f[j]);
                    assert(s[s.len() - 1] == f[i]);
                }
            }
        } else {
            assert(f == fd);
        }
    }
}

/// Each operation keeps node ids distinct.
proof fn lemma_step_distinct(m: DiagramModel, o: OpModel)
    requires
        ids_distinct(m.nodes),
    ensures
        ids_distinct(op_step(m, o).nodes),
{
    let op = or_text(o.op, Seq::empty());
    let id = or_text(o.id, Seq::empty());
    let r = op_step(m, o);
    if id.len() == 0 && op != "setViewport"@ {
    } else if op == "addNode"@ {
        if !has_node(m.nodes, id) {
            assert forall|i: int, j: int|
                0 <= i < r.nodes.len() && 0 <= j < r.nodes.len() && i != j implies (
                #[trigger] r.nodes[i]).id != (#[trigger] r.nodes[j]).id by {
                if i < m.nodes.len() && j < m.nodes.len() {
                    assert(r.nodes[i] == m.nodes[i] && r.nodes[j] == m.nodes[j]);
                } else if i < m.nodes.len() {
                    assert(r.nodes[i] == m.nodes[i]);
                } else {
                    assert(r.nodes[j] == m.nodes[j]);
                }
            }
        }
    } else if op == "addEdge"@ {
    } else if op == "removeNode"@ {
        lemma_filter_distinct(m.nodes, node_other_than(id));
    } else if op == "removeEdge"@ {
    } else if op == "updateNode"@ {
        if has_node(m.nodes, id) {
            assert forall|i: int, j: int|
                0 <= i < r.nodes.len() && 0 <= j < r.nodes.len() && i != j implies (
                #[trigger] r.nodes[i]).id != (#[trigger] r.nodes[j]).id by {
                assert(r.nodes[i].id == m.nodes[i].id);
                assert(r.nodes[j].id == m.nodes[j].id);
            }
        }
    } else {
    }
}

/// Whatever a batch holds, a diagram whose edges all connect existing nodes
/// keeps that property.
pub proof fn law_batch_keeps_edges_attached(m: DiagramModel, ops: Seq<OpModel>)
    requires
        edges_attached(m.nodes, m.edges),
    ensures
        edges_attached(ops_fold(m, ops).nodes, ops_fold(m, ops).edges),
    decreases ops.len(),
{
    if ops.len() > 0 {
        law_batch_keeps_edges_attached(m, ops.drop_last());
        lemma_step_attached(ops_fold(m, ops.drop_last()), ops.last());
    }
}

/// Whatever a batch holds, and whatever version it is asked against, a
/// diagram whose node ids are distinct and whose edges all connect existing
/// nodes keeps both properties; the version grows by exactly the number of
/// operations reported applied.
pub proof fn law_batch_keeps_well_formed(
    nodes: Seq<NodeModel>,
    edges: Seq<EdgeModel>,
    version: nat,
    base: nat,
    ops: Seq<OpModel>,
)
    requires
        ids_distinct(nodes),
        edges_attached(nodes, edges),
    ensures
        ids_distinct(apply_batch(nodes, edges, version, base, ops).nodes),
        edges_attached(
            apply_batch(nodes, edges, version, base, ops).nodes,
            apply_batch(nodes, edges, version, base, ops).edges,
        ),
        apply_batch(nodes, edges, version, base, ops).version == version + apply_batch(
            nodes,
            edges,
            version,
            base,
            ops,
        ).applied.len(),
{
    let start = DiagramModel { nodes: nodes, edges: edges, applied: Seq::empty(), conflicts: Seq::empty() };
    law_batch_keeps_edges_attached(start, ops);
    law_batch_keeps_ids_distinct(start, ops);
}

/// A batch is all or nothing: where anything is refused, the diagram and
/// its version stay as they were and no operation counts as applied; where
/// nothing is refused, every operation has taken effect in order.
pub proof fn law_batch_all_or_nothing(
    nodes: Seq<NodeModel>,
    edges: Seq<EdgeModel>,
    version: nat,
    base: nat,
    ops: Seq<OpModel>,
)
    ensures
        ({
            let b = apply_batch(nodes, edges, version, base, ops);
            let m = batch_outcome(nodes, edges, ops);
            &&& b.conflicts.len() > 0 ==> b.nodes == nodes && b.edges == edges && b.applied.len()
                == 0 && b.version == version
            &&& b.conflicts.len() == 0 ==> base == version && b.nodes == m.nodes && b.edges
                == m.edges && b.applied == m.applied
            &&& base != version ==> b.conflicts == seq![version_conflict(base, version)]
        }),
{
}

/// No batch reports more operations applied than it holds; a batch asked
/// against a version at most `u64::MAX` less its length can always be
/// applied.
pub proof fn law_applied_at_most_ops(
    nodes: Seq<NodeModel>,
    edges: Seq<EdgeModel>,
    version: nat,
    base: nat,
    ops: Seq<OpModel>,
)
    ensures
        apply_batch(nodes, edges, version, base, ops).applied.len() <= ops.len(),
{
    let start = DiagramModel { nodes: nodes, edges: edges, applied: Seq::empty(), conflicts: Seq::empty() };
    lemma_fold_counts(start, ops);
}

proof fn lemma_fold_counts(m: DiagramModel, ops: Seq<OpModel>)
    ensures
        ops_fold(m, ops).applied.len() <= m.applied.len() + ops.len(),
    decreases ops.len(),
{
    if ops.len() > 0 {
        lemma_fold_counts(m, ops.drop_last());
        lemma_step_counts(ops_fold(m, ops.drop_last()), ops.last());
    }
}

/// Within a batch, right after a `removeNode` of an id, no node has that id
/// and no edge starts or ends there.
pub proof fn law_batch_remove_node_detaches(
    nodes: Seq<NodeModel>,
    edges: Seq<EdgeModel>,
    ops: Seq<OpModel>,
    i: int,
)
    requires
        0 <= i < ops.len(),
        or_text(ops[i].op, Seq::empty()) == "removeNode"@,
        or_text(ops[i].id, Seq::empty()).len() > 0,
    ensures
        ({
            let start = DiagramModel { nodes: nodes, edges: edges, applied: Seq::empty(), conflicts: Seq::empty() };
            let m = ops_fold(start, ops.take(i + 1));
            let x = or_text(ops[i].id, Seq::empty());
            &&& !has_node(m.nodes, x)
            &&& forall|k: int| 0 <= k < m.edges.len() ==> (#[trigger] m.edges[k]).source != x && m.edges[k].target != x
        }),
{
    let start = DiagramModel { nodes: nodes, edges: edges, applied: Seq::empty(), conflicts: Seq::empty() };
    assert(ops.take(i + 1).drop_last() =~= ops.take(i));
    assert(ops.take(i + 1).last() == ops[i]);
    law_remove_node_detaches(ops_fold(start, ops.take(i)), ops[i]);
}

/// Whatever a batch holds, node ids that were distinct stay distinct.
pub proof fn law_batch_keeps_ids_distinct(m: DiagramModel, ops: Seq<OpModel>)
    requires
        ids_distinct(m.nodes),
    ensures
        ids_distinct(ops_fold(m, ops).nodes),
    decreases ops.len(),
{
    if ops.len() > 0 {
        law_batch_keeps_ids_distinct(m, ops.drop_last());
        lemma_step_distinct(ops_fold(m, ops.drop_last()), ops.last());
    }
}

/// Removing a node leaves no node with its id and no edge that starts or
/// ends there.
pub proof fn law_remove_node_detaches(m: DiagramModel, o: OpModel)
    requires
        or_text(o.op, Seq::empty()) == "removeNode"@,
        or_text(o.id, Seq::empty()).len() > 0,
    ensures
        !has_node(op_step(m, o).nodes, or_text(o.id, Seq::empty())),
        forall|i: int|
            0 <= i < op_step(m, o).edges.len() ==> (#[trigger] op_step(m, o).edges[i]).source != or_text(
                o.id,
                Seq::empty(),
            ) && op_step(m, o).edges[i].target != or_text(o.id, Seq::empty()),
{
    let id = or_text(o.id, Seq::empty());
    let r = op_step(m, o);
    assert("removeNode"@ != "setViewport"@) by {
        reveal_strlit("removeNode");
        reveal_strlit("setViewport");
    }
    assert("removeNode"@ != "addNode"@) by {
        reveal_strlit("removeNode");
        reveal_strlit("addNode");
    }
    assert("removeNode"@ != "addEdge"@) by {
        reveal_strlit("removeNode");
        reveal_strlit("addEdge");
    }
    assert(r.nodes == m.nodes.filter(node_other_than(id)));
    assert(r.edges == m.edges.filter(edge_away_from(id)));
    assert forall|i: int| 0 <= i < r.nodes.len() implies (#[trigger] r.nodes[i]).id != id by {
        m.nodes.lemma_filter_pred(node_other_than(id), i);
    }
    assert forall|i: int| 0 <= i < r.edges.len() implies (#[trigger] r.edges[i]).source != id
        && r.edges[i].target != id by {
        m.edges.lemma_filter_pred(edge_away_from(id), i);
    }
}

// ---------------------------------------------------------------------------
// Executable parts
// ---------------------------------------------------------------------------

fn find_node(nodes: &Vec<DiagramNode>, id: &Vec<char>) -> (r: bool)
    ensures
        r == has_node(node_views(nodes@), id@),
{
    let mut i: usize = 0;
    while i < nodes.len()
        invariant
            i <= nodes.len(),
            forall|k: int| 0 <= k < i ==> (#[trigger] node_views(nodes@)[k]).id != id@,
        decreases nodes.len() - i,
    {
        let v = chars_of(nodes[i].id.as_str());
        if seq_eq(&v, id) {
            assert(node_views(nodes@)[i as int].id == id@);
            return true;
        }
        i += 1;
    }
    false
}

fn find_edge(edges: &Vec<DiagramEdge>, id: &Vec<char>) -> (r: bool)
    ensures
        r == has_edge(edge_views(edges@), id@),
{
    let mut i: usize = 0;
    while i < edges.len()
        invariant
            i <= edges.len(),
            forall|k: int| 0 <= k < i ==> (#[trigger] edge_views(edges@)[k]).id != id@,
        decreases edges.len() - i,
    {
        let v = chars_of(edges[i].id.as_str());
        if seq_eq(&v, id) {
            assert(edge_views(edges@)[i as int].id == id@);
            return true;
        }
        i += 1;
    }
    false
}

fn copy_nodes(nodes: &Vec<DiagramNode>) -> (r: Vec<DiagramNode>)
    ensures
        node_views(r@) == node_views(nodes@),
{
    let mut out: Vec<DiagramNode> = Vec::new();
    let mut i: usize = 0;
    while i < nodes.len()
        invariant
            i <= nodes.len(),
            node_views(out@) =~= node_views(nodes@).take(i as int),
        decreases nodes.len() - i,
    {
        let ghost prev = out@;
        out.push(nodes[i].copy());
        assert(node_views(out@) =~= node_views(prev).push(nodes@[i as int]@));
        i += 1;
    }
    assert(node_views(nodes@).take(nodes.len() as int) =~= node_views(nodes@));
    out
}

fn copy_edges(edges: &Vec<DiagramEdge>) -> (r: Vec<DiagramEdge>)
    ensures
        edge_views(r@) == edge_views(edges@),
{
    let mut out: Vec<DiagramEdge> = Vec::new();
    let mut i: usize = 0;
    while i < edges.len()
        invariant
            i <= edges.len(),
            edge_views(out@) =~= edge_views(edges@).take(i as int),
        decreases edges.len() - i,
    {
        let ghost prev = out@;
        out.push(edges[i].copy());
        assert(edge_views(out@) =~= edge_views(prev).push(edges@[i as int]@));
        i += 1;
    }
    assert(edge_views(edges@).take(edges.len() as int) =~= edge_views(edges@));
    out
}

fn string_or(o: &Option<String>, d: &String) -> (r: String)
    ensures
        r@ == or_text(ov(*o), d@),
{
    match o {
        Some(s) => s.clone(),
        None => d.clone(),
    }
}

fn update_nodes_vec(nodes: &Vec<DiagramNode>, id: &Vec<char>, o: &DiagramOp) -> (r: Vec<DiagramNode>)
    ensures
        node_views(r@) == update_nodes(node_views(nodes@), id@, o@),
{
    let ghost want = update_nodes(node_views(nodes@), id@, o@);
    let mut out: Vec<DiagramNode> = Vec::new();
    let mut i: usize = 0;
    while i < nodes.len()
        invariant
            i <= nodes.len(),
            want == update_nodes(node_views(nodes@), id@, o@),
            node_views(out@) =~= want.take(i as int),
        decreases nodes.len() - i,
    {
        let n = &nodes[i];
        let ghost prev = out@;
        let v = chars_of(n.id.as_str());
        if seq_eq(&v, id) {
            let node = DiagramNode {
                id: n.id.clone(),
                kind: string_or(&o.node_type, &n.kind),
                label: string_or(&o.label, &n.label),
                description: string_or(&o.description, &n.description),
            };
            out.push(node);
        } else {
            out.push(n.copy());
        }
        assert(node_views(out@) =~= node_views(prev).push(want[i as int]));
        i += 1;
    }
    assert(want.take(nodes.len() as int) =~= want);
    out
}

fn update_edges_vec(edges: &Vec<DiagramEdge>, id: &Vec<char>, o: &DiagramOp) -> (r: Vec<DiagramEdge>)
    ensures
        edge_views(r@) == update_edges(edge_views(edges@), id@, o@),
{
    let ghost want = update_edges(edge_views(edges@), id@, o@);
    let mut out: Vec<DiagramEdge> = Vec::new();
    let mut i: usize = 0;
    while i < edges.len()
        invariant
            i <= edges.len(),
            want == update_edges(edge_views(edges@), id@, o@),
            edge_views(out@) =~= want.take(i as int),
        decreases edges.len() - i,
    {
        let e = &edges[i];
        let ghost prev = out@;
        let v = chars_of(e.id.as_str());
        if seq_eq(&v, id) {
            let edge = DiagramEdge {
                id: e.id.clone(),
                source: e.source.clone(),
                target: e.target.clone(),
                label: string_or(&o.label, &e.label),
            };
            out.push(edge);
        } else {
            out.push(e.copy());
        }
        assert(edge_views(out@) =~= edge_views(prev).push(want[i as int]));
        i += 1;
    }
    assert(want.take(edges.len() as int) =~= want);
    out
}

/// The hyphen-separated pieces of `id`, each with its first character
/// upper-cased, joined by spaces.
pub fn hyphen_title_vec(id: &Vec<char>) -> (r: Vec<char>)
    ensures
        r@ == hyphen_title(id@),
{
    let cls = CharClass::of(vec!['-']);
    assert(cls@.0 =~= seq!['-']);
    let parts = split_vec(id, &cls);
    let mut caps: Vec<Vec<char>> = Vec::new();
    let mut i: usize = 0;
    while i < parts.len()
        invariant
            i <= parts.len(),
            views_v(caps@) =~= map_upper_first(views_v(parts@)).take(i as int),
        decreases parts.len() - i,
    {
        let w = &parts[i];
        let mut c: Vec<char> = Vec::new();
        if w.len() > 0 {
            let up = char_to_uppercase(w[0]);
            append_str(&mut c, up.as_str());
            let rest = slice_vec(w, 1, w.len());
            append_vec(&mut c, &rest);
            assert(w@.skip(1) =~= w@.subrange(1, w@.len() as int));
        } else {
            assert(c@ =~= w@);
        }
        let ghost prev = caps@;
        caps.push(c);
        assert(views_v(caps@) =~= views_v(prev).push(upper_first(views_v(parts@)[i as int])));
        i += 1;
    }
    assert(map_upper_first(views_v(parts@)).take(parts.len() as int) =~= map_upper_first(
        views_v(parts@),
    ));
    assert(cls@ == (seq!['-'], false, false));
    let sep = chars_of(" ");
    join_vec(&caps, &sep)
}

fn nodes_without(nodes: &Vec<DiagramNode>, id: &Vec<char>) -> (r: Vec<DiagramNode>)
    ensures
        node_views(r@) == node_views(nodes@).filter(node_other_than(id@)),
{
    let ghost pred = node_other_than(id@);
    let mut out: Vec<DiagramNode> = Vec::new();
    let mut i: usize = 0;
    assert(node_views(nodes@).take(0) =~= Seq::<NodeModel>::empty());
    reveal_with_fuel(Seq::filter, 1);
    while i < nodes.len()
        invariant
            i <= nodes.len(),
            pred == node_other_than(id@),
            node_views(out@) =~= node_views(nodes@).take(i as int).filter(pred),
        decreases nodes.len() - i,
    {
        reveal_with_fuel(Seq::filter, 1);
        let ghost prev = out@;
        assert(node_views(nodes@).take(i + 1).drop_last() =~= node_views(nodes@).take(i as int));
        assert(node_views(nodes@).take(i + 1).last() == nodes@[i as int]@);
        let v = chars_of(nodes[i].id.as_str());
        if !seq_eq(&v, id) {
            out.push(nodes[i].copy());
            assert(node_views(out@) =~= node_views(prev).push(nodes@[i as int]@));
        }
        i += 1;
    }
    assert(node_views(nodes@).take(nodes.len() as int) =~= node_views(nodes@));
    out
}

fn edges_away_from(edges: &Vec<DiagramEdge>, id: &Vec<char>) -> (r: Vec<DiagramEdge>)
    ensures
        edge_views(r@) == edge_views(edges@).filter(edge_away_from(id@)),
{
    let ghost pred = edge_away_from(id@);
    let mut out: Vec<DiagramEdge> = Vec::new();
    let mut i: usize = 0;
    assert(edge_views(edges@).take(0) =~= Seq::<EdgeModel>::empty());
    reveal_with_fuel(Seq::filter, 1);
    while i < edges.len()
        invariant
            i <= edges.len(),
            pred == edge_away_from(id@),
            edge_views(out@) =~= edge_views(edges@).take(i as int).filter(pred),
        decreases edges.len() - i,
    {
        reveal_with_fuel(Seq::filter, 1);
        let ghost prev = out@;
        assert(edge_views(edges@).take(i + 1).drop_last() =~= edge_views(edges@).take(i as int));
        assert(edge_views(edges@).take(i + 1).last() == edges@[i as int]@);
        let s = chars_of(edges[i].source.as_str());
        let t = chars_of(edges[i].target.as_str());
        if !seq_eq(&s, id) && !seq_eq(&t, id) {
            out.push(edges[i].copy());
            assert(edge_views(out@) =~= edge_views(prev).push(edges@[i as int]@));
        }
        i += 1;
    }
    assert(edge_views(edges@).take(edges.len() as int) =~= edge_views(edges@));
    out
}

fn edges_without(edges: &Vec<DiagramEdge>, id: &Vec<char>) -> (r: Vec<DiagramEdge>)
    ensures
        edge_views(r@) == edge_views(edges@).filter(edge_other_than(id@)),
{
    let ghost pred = edge_other_than(id@);
    let mut out: Vec<DiagramEdge> = Vec::new();
    let mut i: usize = 0;
    assert(edge_views(edges@).take(0) =~= Seq::<EdgeModel>::empty());
    reveal_with_fuel(Seq::filter, 1);
    while i < edges.len()
        invariant
            i <= edges.len(),
            pred == edge_other_than(id@),
            edge_views(out@) =~= edge_views(edges@).take(i as int).filter(pred),
        decreases edges.len() - i,
    {
        reveal_with_fuel(Seq::filter, 1);
        let ghost prev = out@;
        assert(edge_views(edges@).take(i + 1).drop_last() =~= edge_views(edges@).take(i as int));
        assert(edge_views(edges@).take(i + 1).last() == edges@[i as int]@);
        let v = chars_of(edges[i].id.as_str());
        if !seq_eq(&v, id) {
            out.push(edges[i].copy());
            assert(edge_views(out@) =~= edge_views(prev).push(edges@[i as int]@));
        }
        i += 1;
    }
    assert(edge_views(edges@).take(edges.len() as int) =~= edge_views(edges@));
    out
}

fn text_or(o: &Option<String>, d: &Vec<char>) -> (r: Vec<char>)
    ensures
        r@ == or_text(ov(*o), d@),
{
    match o {
        Some(s) => chars_of(s.as_str()),
        None => d.clone(),
    }
}

fn tag_vec(op: &Vec<char>, id: &Vec<char>) -> (r: Vec<char>)
    ensures
        r@ == op_tag(op@, id@),
{
    let mut t = op.clone();
    append_str(&mut t, ":");
    append_vec(&mut t, id);
    t
}

fn refusal(op: &Vec<char>, id: &Vec<char>, why: &Vec<char>) -> (r: String)
    ensures
        r@ == op_tag(op@, id@) + " - "@ + why@,
{
    let mut t = tag_vec(op, id);
    append_str(&mut t, " - ");
    append_vec(&mut t, why);
    string_of(&t)
}

fn quoted_vec(before: &str, name: &Vec<char>, after: &str) -> (r: Vec<char>)
    ensures
        r@ == quoted(before@, name@, after@),
{
    let mut t = chars_of(before);
    append_vec(&mut t, name);
    append_str(&mut t, after);
    t
}

/// The outcome of a batch of operations.
#[derive(Debug)]
pub struct OpResult {
    pub success: bool,
    pub new_version: u64,
    pub applied_ops: Vec<String>,
    pub conflicts: Vec<String>,
    pub errors: Vec<String>,
}

impl DiagramState {
    fn apply_one(&mut self, o: &DiagramOp, applied: &mut Vec<String>, conflicts: &mut Vec<String>)
        ensures
            final(self).version == old(self).version,
            model_of(final(self).nodes@, final(self).edges@, final(applied)@, final(conflicts)@)
                == op_step(model_of(old(self).nodes@, old(self).edges@, old(applied)@, old(conflicts)@), o@),
    {
        let ghost m = model_of(self.nodes@, self.edges@, applied@, conflicts@);
        let empty: Vec<char> = Vec::new();
        let op = text_or(&o.op, &empty);
        let id = text_or(&o.id, &empty);
        if id.len() == 0 && !str_eq("setViewport", &op) {
            return;
        }
        if str_eq("addNode", &op) {
            if find_node(&self.nodes, &id) {
                let why = quoted_vec("Node '", &id, "' already exists");
                conflicts.push(refusal(&op, &id, &why));
                assert(views(conflicts@) =~= m.conflicts.push(views(conflicts@).last()));
            } else {
                let concept = chars_of("concept");
                let kind = text_or(&o.node_type, &concept);
                let given = text_or(&o.label, &id);
                let label = if given.len() == 0 {
                    hyphen_title_vec(&id)
                } else {
                    given
                };
                let description = text_or(&o.description, &empty);
                let node = DiagramNode {
                    id: string_of(&id),
                    kind: string_of(&kind),
                    label: string_of(&label),
                    description: string_of(&description),
                };
                self.nodes.push(node);
                applied.push(string_of(&tag_vec(&op, &id)));
                assert(node_views(self.nodes@) =~= m.nodes.push(node_views(self.nodes@).last()));
                assert(views(applied@) =~= m.applied.push(views(applied@).last()));
            }
        } else if str_eq("addEdge", &op) {
            let source = text_or(&o.source, &empty);
            let target = text_or(&o.target, &empty);
            if source.len() == 0 || target.len() == 0 {
                let why = chars_of("Edge source and target required");
                conflicts.push(refusal(&op, &id, &why));
                assert(views(conflicts@) =~= m.conflicts.push(views(conflicts@).last()));
            } else if !find_node(&self.nodes, &source) {
                let why = quoted_vec("Source node '", &source, "' not found");
                conflicts.push(refusal(&op, &id, &why));
                assert(views(conflicts@) =~= m.conflicts.push(views(conflicts@).last()));
            } else if !find_node(&self.nodes, &target) {
                let why = quoted_vec("Target node '", &target, "' not found");
                conflicts.push(refusal(&op, &id, &why));
                assert(views(conflicts@) =~= m.conflicts.push(views(conflicts@).last()));
            } else {
                let label = text_or(&o.label, &empty);
                let edge = DiagramEdge {
                    id: string_of(&id),
                    source: string_of(&source),
                    target: string_of(&target),
                    label: string_of(&label),
                };
                self.edges.push(edge);
                applied.push(string_of(&tag_vec(&op, &id)));
                assert(edge_views(self.edges@) =~= m.edges.push(edge_views(self.edges@).last()));
                assert(views(applied@) =~= m.applied.push(views(applied@).last()));
            }
        } else if str_eq("removeNode", &op) {
            self.nodes = nodes_without(&self.nodes, &id);
            self.edges = edges_away_from(&self.edges, &id);
            applied.push(string_of(&tag_vec(&op, &id)));
            assert(views(applied@) =~= m.applied.push(views(applied@).last()));
        } else if str_eq("removeEdge", &op) {
            self.edges = edges_without(&self.edges, &id);
            applied.push(string_of(&tag_vec(&op, &id)));
            assert(views(applied@) =~= m.applied.push(views(applied@).last()));
        } else if str_eq("updateNode", &op) {
            if !find_node(&self.nodes, &id) {
                let why = quoted_vec("Node '", &id, "' not found");
                conflicts.push(refusal(&op, &id, &why));
                assert(views(conflicts@) =~= m.conflicts.push(views(conflicts@).last()));
            } else {
                self.nodes = update_nodes_vec(&self.nodes, &id, o);
                applied.push(string_of(&tag_vec(&op, &id)));
                assert(views(applied@) =~= m.applied.push(views(applied@).last()));
            }
        } else if str_eq("updateEdge", &op) {
            if !find_edge(&self.edges, &id) {
                let why = quoted_vec("Edge '", &id, "' not found");
                conflicts.push(refusal(&op, &id, &why));
                assert(views(conflicts@) =~= m.conflicts.push(views(conflicts@).last()));
            } else {
                self.edges = update_edges_vec(&self.edges, &id, o);
                applied.push(string_of(&tag_vec(&op, &id)));
                assert(views(applied@) =~= m.applied.push(views(applied@).last()));
            }
        } else if str_eq("setViewport", &op) {
            applied.push(string_of(&tag_vec(&op, &id)));
            assert(views(applied@) =~= m.applied.push(views(applied@).last()));
        } else {
            let mut why = chars_of("Unknown operation: ");
            append_vec(&mut why, &op);
            conflicts.push(refusal(&op, &id, &why));
            assert(views(conflicts@) =~= m.conflicts.push(views(conflicts@).last()));
        }
    }

    /// Applies a batch of operations, asked against the version the caller
    /// last read, all or nothing.  A batch asked against another version than
    /// the current one is refused whole with a version conflict.  Otherwise
    /// the operations are tried in order on a working copy: each is applied
    /// or refused with a message, and one without an id is passed over
    /// unless it sets the viewport.  Where any is refused, the diagram and
    /// its version stay as they were and nothing counts as applied; where
    /// none is, the copy is kept and the version grows by the number applied.
    pub fn apply_ops(&mut self, operations: &Vec<DiagramOp>, base_version: u64) -> (r: OpResult)
        requires
            old(self).version + apply_batch(
                node_views(old(self).nodes@),
                edge_views(old(self).edges@),
                old(self).version as nat,
                base_version as nat,
                op_views(operations@),
            ).applied.len() <= u64::MAX,
        ensures
            ({
                let b = apply_batch(
                    node_views(old(self).nodes@),
                    edge_views(old(self).edges@),
                    old(self).version as nat,
                    base_version as nat,
                    op_views(operations@),
                );
                &&& node_views(final(self).nodes@) == b.nodes
                &&& edge_views(final(self).edges@) == b.edges
                &&& views(r.applied_ops@) == b.applied
                &&& views(r.conflicts@) == b.conflicts
                &&& r.errors@.len() == 0
                &&& r.success == (b.conflicts.len() == 0)
                &&& r.new_version == b.version
                &&& final(self).version == b.version
            }),
            old(self).well_formed() ==> final(self).well_formed(),
    {
        let ghost nodes0 = node_views(self.nodes@);
        let ghost edges0 = edge_views(self.edges@);
        let ghost ops = op_views(operations@);
        let ghost v0 = self.version;
        if base_version != self.version {
            let mut msg = chars_of("Version conflict: base_version ");
            append_vec(&mut msg, &decimal_vec(base_version));
            append_str(&mut msg, " does not match current version ");
            append_vec(&mut msg, &decimal_vec(self.version));
            let mut conflicts: Vec<String> = Vec::new();
            conflicts.push(string_of(&msg));
            assert(views(conflicts@) =~= seq![version_conflict(base_version as nat, v0 as nat)]);
            let applied: Vec<String> = Vec::new();
            assert(views(applied@) =~= Seq::<Seq<char>>::empty());
            return OpResult {
                success: false,
                new_version: self.version,
                applied_ops: applied,
                conflicts,
                errors: Vec::new(),
            };
        }
        let ghost start = DiagramModel {
            nodes: nodes0,
            edges: edges0,
            applied: Seq::empty(),
            conflicts: Seq::empty(),
        };
        let mut work = DiagramState {
            nodes: copy_nodes(&self.nodes),
            edges: copy_edges(&self.edges),
            version: self.version,
        };
        let mut applied: Vec<String> = Vec::new();
        let mut conflicts: Vec<String> = Vec::new();
        let mut i: usize = 0;
        assert(views(applied@) =~= Seq::<Seq<char>>::empty());
        assert(views(conflicts@) =~= Seq::<Seq<char>>::empty());
        assert(model_of(work.nodes@, work.edges@, applied@, conflicts@) == start);
        assert(ops.take(0) =~= Seq::<OpModel>::empty());
        while i < operations.len()
            invariant
                i <= operations.len(),
                ops == op_views(operations@),
                work.version == v0,
                self.version == v0,
                node_views(self.nodes@) == nodes0,
                edge_views(self.edges@) == edges0,
                model_of(work.nodes@, work.edges@, applied@, conflicts@) == ops_fold(start, ops.take(i as int)),
            decreases operations.len() - i,
        {
            assert(ops.take(i + 1).drop_last() =~= ops.take(i as int));
            assert(ops.take(i + 1).last() == operations@[i as int]@);
            work.apply_one(&operations[i], &mut applied, &mut conflicts);
            i += 1;
        }
        assert(ops.take(operations.len() as int) =~= ops);
        proof {
            if ids_distinct(nodes0) && edges_attached(nodes0, edges0) {
                law_batch_keeps_well_formed(nodes0, edges0, v0 as nat, base_version as nat, ops);
            }
        }
        if conflicts.len() == 0 {
            assert(views(applied@).len() == applied@.len());
            let new_version = self.version + applied.len() as u64;
            self.nodes = work.nodes;
            self.edges = work.edges;
            self.version = new_version;
            OpResult { success: true, new_version, applied_ops: applied, conflicts, errors: Vec::new() }
        } else {
            let none: Vec<String> = Vec::new();
            assert(views(none@) =~= Seq::<Seq<char>>::empty());
            OpResult {
                success: false,
                new_version: self.version,
                applied_ops: none,
                conflicts,
                errors: Vec::new(),
            }
        }
    }
}

// ---------------------------------------------------------------------------
// Scoring
// ---------------------------------------------------------------------------

/// The structure a criterion asks of the diagram, in quarter points, given
/// the number of nodes.
pub open spec fn structure_points(criterion: Seq<char>, nodes: nat) -> nat {
    if criterion == "has_api_component"@ || criterion == "has_frontend_component"@ {
        if nodes >= 1 { 1 } else { 0 }
    } else if criterion == "has_database_component"@ || criterion == "has_backend_component"@ {
        if nodes >= 2 { 1 } else { 0 }
    } else if criterion == "has_auth_component"@ {
        if nodes >= 3 { 1 } else { 0 }
    } else if criterion == "has_cache_component"@ {
        if nodes >= 4 { 1 } else { 0 }
    } else if criterion == "has_multiple_services"@ {
        if nodes >= 4 { 2 } else { 0 }
    } else if criterion == "has_components_from_codebase"@ {
        if nodes >= 2 { 2 } else { 0 }
    } else {
        0
    }
}

/// The relationships a criterion asks of the diagram, in quarter points,
/// given the number of edges.
pub open spec fn relation_points(criterion: Seq<char>, edges: nat) -> nat {
    if criterion == "has_service_relationships"@ {
        if edges >= 3 { 2 } else { 0 }
    } else if criterion == "has_data_flow"@ {
        if edges >= 5 { 2 } else { 0 }
    } else if criterion == "has_relationships"@ {
        if edges >= 1 { 2 } else { 0 }
    } else {
        0
    }
}

pub open spec fn structure_total(criteria: Seq<Seq<char>>, nodes: nat) -> nat
    decreases criteria.len(),
{
    if criteria.len() == 0 {
        0
    } else {
        structure_total(criteria.drop_last(), nodes) + structure_points(criteria.last(), nodes)
    }
}

pub open spec fn relation_total(criteria: Seq<Seq<char>>, edges: nat) -> nat
    decreases criteria.len(),
{
    if criteria.len() == 0 {
        0
    } else {
        relation_total(criteria.drop_last(), edges) + relation_points(criteria.last(), edges)
    }
}

pub open spec fn at_most_four(n: nat) -> nat {
    if n > 4 { 4 } else { n }
}

/// The quality of a diagram in quarter points: structure and relationships
/// each run from 0 to 4 (a whole point).  The overall quality weighs them
/// 3 to 2.
#[derive(Debug, Clone, Copy)]
pub struct DiagramQuality {
    pub structural_quarters: u32,
    pub relationship_quarters: u32,
}

fn criterion_points(c: &Vec<char>, nodes: usize, edges: usize) -> (r: (u32, u32))
    ensures
        r.0 == structure_points(c@, nodes as nat),
        r.1 == relation_points(c@, edges as nat),
{
    let s: u32 = if str_eq("has_api_component", c) || str_eq("has_frontend_component", c) {
        if nodes >= 1 { 1 } else { 0 }
    } else if str_eq("has_database_component", c) || str_eq("has_backend_component", c) {
        if nodes >= 2 { 1 } else { 0 }
    } else if str_eq("has_auth_component", c) {
        if nodes >= 3 { 1 } else { 0 }
    } else if str_eq("has_cache_component", c) {
        if nodes >= 4 { 1 } else { 0 }
    } else if str_eq("has_multiple_services", c) {
        if nodes >= 4 { 2 } else { 0 }
    } else if str_eq("has_components_from_codebase", c) {
        if nodes >= 2 { 2 } else { 0 }
    } else {
        0
    };
    let e: u32 = if str_eq("has_service_relationships", c) {
        if edges >= 3 { 2 } else { 0 }
    } else if str_eq("has_data_flow", c) {
        if edges >= 5 { 2 } else { 0 }
    } else if str_eq("has_relationships", c) {
        if edges >= 1 { 2 } else { 0 }
    } else {
        0
    };
    (s, e)
}

/// Scores a diagram against the criteria of its task by the number of its
/// nodes and edges.
pub fn evaluate_diagram_state(state: &DiagramState, criteria: &Vec<String>) -> (r: DiagramQuality)
    ensures
        r.structural_quarters == at_most_four(structure_total(views(criteria@), state.nodes@.len())),
        r.relationship_quarters == at_most_four(relation_total(views(criteria@), state.edges@.len())),
{
    let nodes = state.nodes.len();
    let edges = state.edges.len();
    let ghost cs = views(criteria@);
    let mut s: u32 = 0;
    let mut e: u32 = 0;
    let mut i: usize = 0;
    assert(cs.take(0) =~= Seq::<Seq<char>>::empty());
    while i < criteria.len()
        invariant
            i <= criteria.len(),
            cs == views(criteria@),
            nodes == state.nodes@.len(),
            edges == state.edges@.len(),
            s == at_most_four(structure_total(cs.take(i as int), nodes as nat)),
            e == at_most_four(relation_total(cs.take(i as int), edges as nat)),
        decreases criteria.len() - i,
    {
        assert(cs.take(i + 1).drop_last() =~= cs.take(i as int));
        assert(cs.take(i + 1).last() == criteria@[i as int]@);
        let c = chars_of(criteria[i].as_str());
        let (ds, de) = criterion_points(&c, nodes, edges);
        s = if s + ds > 4 { 4 } else { s + ds };
        e = if e + de > 4 { 4 } else { e + de };
        i += 1;
    }
    assert(cs.take(criteria.len() as int) =~= cs);
    DiagramQuality { structural_quarters: s, relationship_quarters: e }
}

/// A criterion that asks for components names one of these words.
pub open spec fn component_words(criterion: Seq<char>) -> Seq<Seq<char>> {
    if criterion == "has_api_component"@ {
        seq!["api"@, "rest"@]
    } else if criterion == "has_database_component"@ {
        seq!["database"@, "db"@, "postgresql"@]
    } else if criterion == "has_auth_component"@ {
        seq!["auth"@, "authentication"@]
    } else if criterion == "has_cache_component"@ {
        seq!["cache"@, "redis"@]
    } else if criterion == "has_multiple_services"@ {
        seq!["service"@]
    } else if criterion == "has_components_from_codebase"@ || criterion == "has_frontend_component"@
        || criterion == "has_backend_component"@ {
        seq!["frontend"@, "backend"@, "api"@, "server"@]
    } else {
        Seq::empty()
    }
}

/// A criterion that asks for relationships names one of these words.
pub open spec fn relation_words(criterion: Seq<char>) -> Seq<Seq<char>> {
    if criterion == "has_service_relationships"@ || criterion == "has_data_flow"@ || criterion
        == "has_relationships"@ {
        seq!["communicate"@, "call"@, "depend"@, "connect"@, "->"@, "-->"@]
    } else {
        Seq::empty()
    }
}

/// The text names one of the words.
pub open spec fn names_any(text: Seq<char>, words: Seq<Seq<char>>) -> bool {
    exists|k: int| 0 <= k < words.len() && contains(text, #[trigger] words[k])
}

/// Some observation, lower-cased, names a word of some criterion.
pub open spec fn mentions(
    texts: Seq<Seq<char>>,
    criteria: Seq<Seq<char>>,
    words: spec_fn(Seq<char>) -> Seq<Seq<char>>,
) -> bool {
    exists|i: int, j: int|
        0 <= i < texts.len() && 0 <= j < criteria.len() && names_any(
            unicode_lowercase(#[trigger] texts[i]),
            words(#[trigger] criteria[j]),
        )
}

/// What the text of a run without diagram tools shows.
#[derive(Debug, Clone, Copy)]
pub struct TextQuality {
    pub has_components: bool,
    pub has_relationships: bool,
    pub has_description: bool,
}

fn names_any_vec(text: &Vec<char>, words: &Vec<&str>) -> (r: bool)
    ensures
        r == names_any(text@, Seq::new(words@.len() as nat, |k: int| words@[k]@)),
{
    let ghost ws = Seq::new(words@.len() as nat, |k: int| words@[k]@);
    let mut k: usize = 0;
    while k < words.len()
        invariant
            k <= words.len(),
            ws == Seq::new(words@.len() as nat, |k: int| words@[k]@),
            forall|x: int| 0 <= x < k ==> !contains(text@, #[trigger] ws[x]),
        decreases words.len() - k,
    {
        let w = chars_of(words[k]);
        if contains_vec(text, &w) {
            assert(contains(text@, ws[k as int]));
            return true;
        }
        k += 1;
    }
    false
}

fn component_words_vec(c: &Vec<char>) -> (r: Vec<&'static str>)
    ensures
        Seq::new(r@.len() as nat, |k: int| r@[k]@) == component_words(c@),
{
    let r: Vec<&'static str> = if str_eq("has_api_component", c) {
        vec!["api", "rest"]
    } else if str_eq("has_database_component", c) {
        vec!["database", "db", "postgresql"]
    } else if str_eq("has_auth_component", c) {
        vec!["auth", "authentication"]
    } else if str_eq("has_cache_component", c) {
        vec!["cache", "redis"]
    } else if str_eq("has_multiple_services", c) {
        vec!["service"]
    } else if str_eq("has_components_from_codebase", c) || str_eq("has_frontend_component", c)
        || str_eq("has_backend_component", c) {
        vec!["frontend", "backend", "api", "server"]
    } else {
        vec![]
    };
    assert(Seq::new(r@.len() as nat, |k: int| r@[k]@) =~= component_words(c@));
    r
}

fn relation_words_vec(c: &Vec<char>) -> (r: Vec<&'static str>)
    ensures
        Seq::new(r@.len() as nat, |k: int| r@[k]@) == relation_words(c@),
{
    let r: Vec<&'static str> = if str_eq("has_service_relationships", c) || str_eq(
        "has_data_flow",
        c,
    ) || str_eq("has_relationships", c) {
        vec!["communicate", "call", "depend", "connect", "->", "-->"]
    } else {
        vec![]
    };
    assert(Seq::new(r@.len() as nat, |k: int| r@[k]@) =~= relation_words(c@));
    r
}

/// Scores the text a run gathered without diagram tools: each observation,
/// lower-cased, is searched for the words of each criterion; a description
/// is there when some observation is not empty.
pub fn evaluate_text_output(observations: &Vec<String>, criteria: &Vec<String>) -> (r: TextQuality)
    ensures
        r.has_components == mentions(views(observations@), views(criteria@), |c: Seq<char>| component_words(c)),
        r.has_relationships == mentions(views(observations@), views(criteria@), |c: Seq<char>| relation_words(c)),
        r.has_description == exists|i: int| 0 <= i < observations@.len() && (#[trigger] observations@[i])@.len() > 0,
{
    let ghost ts = views(observations@);
    let ghost cs = views(criteria@);
    let ghost cw = |c: Seq<char>| component_words(c);
    let ghost rw = |c: Seq<char>| relation_words(c);
    let mut comp = false;
    let mut rel = false;
    let mut desc = false;
    let mut i: usize = 0;
    while i < observations.len()
        invariant
            i <= observations.len(),
            ts == views(observations@),
            cs == views(criteria@),
            cw == (|c: Seq<char>| component_words(c)),
            rw == (|c: Seq<char>| relation_words(c)),
            comp == exists|a: int, b: int|
                0 <= a < i && 0 <= b < cs.len() && names_any(unicode_lowercase(#[trigger] ts[a]), cw(#[trigger] cs[b])),
            rel == exists|a: int, b: int|
                0 <= a < i && 0 <= b < cs.len() && names_any(unicode_lowercase(#[trigger] ts[a]), rw(#[trigger] cs[b])),
            desc == exists|a: int| 0 <= a < i && (#[trigger] observations@[a])@.len() > 0,
        decreases observations.len() - i,
    {
        let lc = to_lowercase(observations[i].as_str());
        let text = chars_of(lc.as_str());
        let mut j: usize = 0;
        let ghost comp0 = comp;
        let ghost rel0 = rel;
        while j < criteria.len()
            invariant
                i < observations.len(),
                j <= criteria.len(),
                ts == views(observations@),
                cs == views(criteria@),
                cw == (|c: Seq<char>| component_words(c)),
                rw == (|c: Seq<char>| relation_words(c)),
                text@ == unicode_lowercase(ts[i as int]),
                comp == (comp0 || exists|b: int| 0 <= b < j && names_any(text@, cw(#[trigger] cs[b]))),
                rel == (rel0 || exists|b: int| 0 <= b < j && names_any(text@, rw(#[trigger] cs[b]))),
            decreases criteria.len() - j,
        {
            let c = chars_of(criteria[j].as_str());
            let cwv = component_words_vec(&c);
            if names_any_vec(&text, &cwv) {
                comp = true;
            }
            let rwv = relation_words_vec(&c);
            if names_any_vec(&text, &rwv) {
                rel = true;
            }
            assert(cs[j as int] == c@);
            j += 1;
        }
        let raw = chars_of(observations[i].as_str());
        if raw.len() > 0 {
            desc = true;
        }
        proof {
            assert(comp == exists|a: int, b: int|
                0 <= a < i + 1 && 0 <= b < cs.len() && names_any(unicode_lowercase(#[trigger] ts[a]), cw(#[trigger] cs[b]))) by {
                if comp {
                    if !comp0 {
                        let b = choose|b: int| 0 <= b < criteria.len() && names_any(text@, cw(#[trigger] cs[b]));
                        assert(names_any(unicode_lowercase(ts[i as int]), cw(cs[b])));
                    }
                }
            }
            assert(rel == exists|a: int, b: int|
                0 <= a < i + 1 && 0 <= b < cs.len() && names_any(unicode_lowercase(#[trigger] ts[a]), rw(#[trigger] cs[b]))) by {
                if rel {
                    if !rel0 {
                        let b = choose|b: int| 0 <= b < criteria.len() && names_any(text@, rw(#[trigger] cs[b]));
                        assert(names_any(unicode_lowercase(ts[i as int]), rw(cs[b])));
                    }
                }
            }
        }
        i += 1;
    }
    TextQuality { has_components: comp, has_relationships: rel, has_description: desc }
}

} // verus!
