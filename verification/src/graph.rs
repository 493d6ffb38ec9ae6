//! The pipeline data model: persisted graphs (nodes and edges), the node
//! definitions a graph refers to, and the bound form the engine executes.
//!
//! Edges come in two kinds, told apart by their handle names. A control
//! edge (`from-node` to `to-node`) orders execution and carries no data.
//! Any other handle pair is a data edge: its source handle names an output
//! port (after stripping an `output-` prefix) and its target handle names
//! an input port (after stripping an `input-` prefix).

use vstd::prelude::*;
use crate::text::{str_eq, strip_rep};

verus! {

/// The definition a placed node refers to: the reference id, display name,
/// and the declared port names.
#[derive(Debug)]
pub struct GraphNodeData {
    /// Reference to a `NodeDefinition`.
    pub id: String,
    pub name: String,
    pub inputs: Vec<String>,
    pub outputs: Vec<String>,
}

/// One placed node inside a graph. The kind label and the selection
/// state only serve the canvas that edits the graph: they are carried
/// through but never read by the engine, and the canvas geometry stays
/// with the transport layer altogether.
#[derive(Debug)]
pub struct GraphNode {
    /// Unique within the graph.
    pub id: String,
    pub node_type: String,
    pub data: GraphNodeData,
    pub selected: bool,
    pub dragging: bool,
}

/// A directed edge between two placed nodes.
#[derive(Debug)]
pub struct GraphEdge {
    pub source: String,
    pub source_handle: String,
    pub target: String,
    pub target_handle: String,
    pub id: String,
}

/// A persisted pipeline: placed nodes and the edges between them.
#[derive(Debug)]
pub struct Graph {
    pub nodes: Vec<GraphNode>,
    pub edges: Vec<GraphEdge>,
}

/// Reusable node content, stored independently of any graph.
#[derive(Debug)]
pub struct NodeDefinition {
    pub id: String,
    pub is_internal: bool,
    pub name: String,
    /// Source text; meaningful only when the node is not internal.
    pub script: String,
    pub inputs: Vec<String>,
    pub outputs: Vec<String>,
}

/// What a node does, resolved once at bind time from its definition:
/// a user script, or one of the built-in internal nodes.
#[derive(Clone, Copy, PartialEq, Eq, Structural, Debug)]
pub enum NodeKind {
    /// A user-authored script node.
    Script,
    /// The entry node seeding the run with the request payload.
    BeginRequest,
    /// The terminal node whose gathered inputs are the run's result.
    EndRequest,
    /// Prunes its downstream path when its `condition` input is false.
    Breaker,
    /// Writes the literal `true` to output port `out`.
    True,
    /// Writes the literal `false` to output port `out`.
    False,
    /// Writes an empty value to output port `out`.
    Empty,
}

/// A placed node joined with its resolved definition for one run.
#[derive(Debug)]
pub struct CombinedNode {
    pub graph_node: GraphNode,
    pub definition: NodeDefinition,
    pub kind: NodeKind,
}

/// The bound form of a graph: every node resolved, with the entry and
/// terminal nodes located.
#[derive(Debug)]
pub struct BoundGraph {
    pub nodes: Vec<CombinedNode>,
    pub edges: Vec<GraphEdge>,
    /// Index of the unique internal `BeginRequest` node.
    pub entry: usize,
    /// Index of the unique internal `EndRequest` node.
    pub terminal: usize,
}

/// The character sequences of a sequence of strings.
pub open spec fn views_of(s: Seq<String>) -> Seq<Seq<char>> {
    s.map_values(|x: String| x@)
}

/// Copy a list of strings, character for character.
pub fn clone_strings(v: &Vec<String>) -> (r: Vec<String>)
    ensures
        views_of(r@) == views_of(v@),
{
    let mut r: Vec<String> = Vec::new();
    let mut i: usize = 0;
    while i < v.len()
        invariant
            i <= v@.len(),
            r@.len() == i,
            forall|j: int| 0 <= j < i ==> (#[trigger] r@[j])@ == v@[j]@,
        decreases v@.len() - i,
    {
        r.push(v[i].clone());
        i = i + 1;
    }
    proof {
        assert(views_of(r@) =~= views_of(v@));
    }
    r
}

/// True when the two node data blocks agree, character for character.
pub open spec fn data_like(a: GraphNodeData, b: GraphNodeData) -> bool {
    &&& a.id@ == b.id@
    &&& a.name@ == b.name@
    &&& views_of(a.inputs@) == views_of(b.inputs@)
    &&& views_of(a.outputs@) == views_of(b.outputs@)
}

/// True when the two placed nodes agree, character for character.
pub open spec fn node_like(a: GraphNode, b: GraphNode) -> bool {
    &&& a.id@ == b.id@
    &&& a.node_type@ == b.node_type@
    &&& data_like(a.data, b.data)
    &&& a.selected == b.selected
    &&& a.dragging == b.dragging
}

/// True when the two definitions agree, character for character.
pub open spec fn def_like(a: NodeDefinition, b: NodeDefinition) -> bool {
    &&& a.id@ == b.id@
    &&& a.is_internal == b.is_internal
    &&& a.name@ == b.name@
    &&& a.script@ == b.script@
    &&& views_of(a.inputs@) == views_of(b.inputs@)
    &&& views_of(a.outputs@) == views_of(b.outputs@)
}

impl Clone for GraphNodeData {
    fn clone(&self) -> (res: Self)
        ensures
            data_like(res, *self),
    {
        GraphNodeData {
            id: self.id.clone(),
            name: self.name.clone(),
            inputs: clone_strings(&self.inputs),
            outputs: clone_strings(&self.outputs),
        }
    }
}

impl Clone for GraphNode {
    fn clone(&self) -> (res: Self)
        ensures
            node_like(res, *self),
    {
        GraphNode {
            id: self.id.clone(),
            node_type: self.node_type.clone(),
            data: self.data.clone(),
            selected: self.selected,
            dragging: self.dragging,
        }
    }
}

impl Clone for NodeDefinition {
    fn clone(&self) -> (res: Self)
        ensures
            def_like(res, *self),
    {
        NodeDefinition {
            id: self.id.clone(),
            is_internal: self.is_internal,
            name: self.name.clone(),
            script: self.script.clone(),
            inputs: clone_strings(&self.inputs),
            outputs: clone_strings(&self.outputs),
        }
    }
}

/// True when `e` is a control edge into the node with graph id `id`.
pub open spec fn is_control_in(e: GraphEdge, id: Seq<char>) -> bool {
    e.target@ == id && e.target_handle@ == "to-node"@
}

/// True when `e` is a control edge out of the node with graph id `id`.
pub open spec fn is_control_out(e: GraphEdge, id: Seq<char>) -> bool {
    e.source@ == id && e.source_handle@ == "from-node"@
}

/// True when `e` carries data into the node with graph id `id`.
pub open spec fn is_data_in(e: GraphEdge, id: Seq<char>) -> bool {
    e.target@ == id && e.target_handle@ != "to-node"@
}

/// The output port an edge reads from its source node.
pub open spec fn source_port(e: GraphEdge) -> Seq<char> {
    strip_rep(e.source_handle@, "output-"@)
}

/// The input port an edge feeds on its target node.
pub open spec fn target_port(e: GraphEdge) -> Seq<char> {
    strip_rep(e.target_handle@, "input-"@)
}

impl BoundGraph {
    /// The graph-local id of the node at index `i`.
    pub open spec fn node_id(&self, i: int) -> Seq<char> {
        self.nodes@[i].graph_node.id@
    }

    /// True when some node carries the graph-local id `id`.
    pub open spec fn resolves(&self, id: Seq<char>) -> bool {
        exists|i: int| 0 <= i < self.nodes@.len() && self.node_id(i) == id
    }

    /// The index of the node with graph-local id `id`.
    pub open spec fn index_of(&self, id: Seq<char>) -> int {
        choose|i: int| 0 <= i < self.nodes@.len() && self.node_id(i) == id
    }

    /// Well-formedness established by binding: entry and terminal are the
    /// unique `BeginRequest` and `EndRequest` nodes.
    pub open spec fn wf(&self) -> bool {
        &&& self.entry < self.nodes@.len()
        &&& self.terminal < self.nodes@.len()
        &&& forall|i: int|
            0 <= i < self.nodes@.len() ==> ((#[trigger] self.nodes@[i].kind)
                == NodeKind::BeginRequest <==> i == self.entry)
        &&& forall|i: int|
            0 <= i < self.nodes@.len() ==> ((#[trigger] self.nodes@[i].kind)
                == NodeKind::EndRequest <==> i == self.terminal)
    }

    /// True when graph-local node ids are pairwise distinct. The engine's
    /// stepping functions ask for this; `ids_are_unique` checks it.
    pub open spec fn ids_unique(&self) -> bool {
        forall|i: int, j: int|
            0 <= i < self.nodes@.len() && 0 <= j < self.nodes@.len() && i != j
                ==> self.node_id(i) != self.node_id(j)
    }

    /// True when every edge's endpoints name existing nodes. The engine's
    /// stepping functions ask for this; `edges_resolved` checks it.
    pub open spec fn edges_resolve(&self) -> bool {
        forall|k: int|
            0 <= k < self.edges@.len() ==> self.resolves(
                (#[trigger] self.edges@[k]).source@,
            ) && self.resolves(self.edges@[k].target@)
    }

    /// The index of the node whose graph-local id is `id`, scanning in
    /// node order.
    pub fn find_node(&self, id: &str) -> (r: Option<usize>)
        ensures
            match r {
                Some(i) => i < self.nodes@.len() && self.node_id(i as int) == id@
                    && (forall|j: int| 0 <= j < i ==> self.node_id(j) != id@),
                None => forall|j: int| 0 <= j < self.nodes@.len() ==> self.node_id(j) != id@,
            },
    {
        let mut i: usize = 0;
        while i < self.nodes.len()
            invariant
                i <= self.nodes@.len(),
                forall|j: int| 0 <= j < i ==> self.node_id(j) != id@,
            decreases self.nodes@.len() - i,
        {
            if str_eq(self.nodes[i].graph_node.id.as_str(), id) {
                return Some(i);
            }
            i = i + 1;
        }
        None
    }

    /// Whether graph-local node ids are pairwise distinct.
    pub fn ids_are_unique(&self) -> (r: bool)
        ensures
            r == self.ids_unique(),
    {
        let mut i: usize = 0;
        while i < self.nodes.len()
            invariant
                i <= self.nodes@.len(),
                forall|k: int, l: int|
                    0 <= k < i && 0 <= l < self.nodes@.len() && k != l ==> self.node_id(k)
                        != self.node_id(l),
            decreases self.nodes@.len() - i,
        {
            let mut j: usize = i + 1;
            while j < self.nodes.len()
                invariant
                    i < j,
                    j <= self.nodes@.len(),
                    i < self.nodes@.len(),
                    forall|l: int| i < l < j ==> self.node_id(i as int) != self.node_id(l),
                decreases self.nodes@.len() - j,
            {
                if str_eq(
                    self.nodes[i].graph_node.id.as_str(),
                    self.nodes[j].graph_node.id.as_str(),
                ) {
                    proof {
                        assert(self.node_id(i as int) == self.node_id(j as int));
                    }
                    return false;
                }
                j = j + 1;
            }
            i = i + 1;
        }
        true
    }

    /// Whether every edge's endpoints name existing nodes.
    pub fn edges_resolved(&self) -> (r: bool)
        ensures
            r == self.edges_resolve(),
    {
        let mut k: usize = 0;
        while k < self.edges.len()
            invariant
                k <= self.edges@.len(),
                forall|l: int|
                    0 <= l < k ==> self.resolves((#[trigger] self.edges@[l]).source@)
                        && self.resolves(self.edges@[l].target@),
            decreases self.edges@.len() - k,
        {
            if self.find_node(self.edges[k].source.as_str()).is_none() {
                return false;
            }
            if self.find_node(self.edges[k].target.as_str()).is_none() {
                return false;
            }
            k = k + 1;
        }
        true
    }
}

} // verus!
