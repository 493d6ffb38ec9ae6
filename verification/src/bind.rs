//! Graph binding: resolve every placed node's definition reference against
//! a supplied store of node definitions, decide once what each node does,
//! and locate the unique entry and terminal nodes.
//!
//! Unknown internal node names are rejected here rather than during
//! dispatch, so a misconfigured graph fails before anything runs.

use vstd::prelude::*;
use crate::graph::{
    BoundGraph, CombinedNode, Graph, GraphNode, NodeDefinition, NodeKind, def_like, node_like,
};
use crate::text::str_eq;

verus! {

/// Why a graph could not be bound.
#[derive(Debug)]
pub enum BindError {
    /// A placed node's `data.id` matches no definition in the store.
    UnresolvedNodeReference { node_ref: String },
    /// An internal definition carries a name the engine does not know.
    UnknownInternalNode { name: String },
    /// No unique internal `BeginRequest`, or no unique internal
    /// `EndRequest`, among the bound nodes.
    MissingEntryOrTerminal,
}

impl BindError {
    /// The text `message` returns for each failure.
    pub open spec fn spec_message(&self) -> Seq<char> {
        match self {
            BindError::UnresolvedNodeReference { node_ref } => {
                "unresolved node reference: "@ + node_ref@
            },
            BindError::UnknownInternalNode { name } => "unknown internal node: "@ + name@,
            BindError::MissingEntryOrTerminal => {
                "graph has no unique BeginRequest/EndRequest pair"@
            },
        }
    }

    /// A human-readable, never empty description of the failure.
    pub fn message(&self) -> (r: String)
        ensures
            r@ == self.spec_message(),
            r@.len() > 0,
    {
        let r: String = match self {
            BindError::UnresolvedNodeReference { node_ref } => {
                let mut m: String = "unresolved node reference: ".to_owned();
                m.append(node_ref.as_str());
                m
            },
            BindError::UnknownInternalNode { name } => {
                let mut m: String = "unknown internal node: ".to_owned();
                m.append(name.as_str());
                m
            },
            BindError::MissingEntryOrTerminal => {
                "graph has no unique BeginRequest/EndRequest pair".to_owned()
            },
        };
        proof {
            reveal_strlit("unresolved node reference: ");
            reveal_strlit("unknown internal node: ");
            reveal_strlit("graph has no unique BeginRequest/EndRequest pair");
        }
        r
    }
}

/// True when some definition in the store carries the id `id`.
pub open spec fn def_resolves(defs: Seq<NodeDefinition>, id: Seq<char>) -> bool {
    exists|j: int| 0 <= j < defs.len() && defs[j].id@ == id
}

/// True when `j` indexes the first definition with id `id`.
pub open spec fn is_first_def(defs: Seq<NodeDefinition>, id: Seq<char>, j: int) -> bool {
    &&& 0 <= j < defs.len()
    &&& defs[j].id@ == id
    &&& forall|l: int| 0 <= l < j ==> defs[l].id@ != id
}

/// The index of the first definition with id `id`.
pub open spec fn def_index(defs: Seq<NodeDefinition>, id: Seq<char>) -> int {
    choose|j: int| is_first_def(defs, id, j)
}

proof fn lemma_def_index(defs: Seq<NodeDefinition>, id: Seq<char>, j: int)
    requires
        is_first_def(defs, id, j),
    ensures
        def_index(defs, id) == j,
{
    assert(is_first_def(defs, id, def_index(defs, id)));
}

/// What a definition makes its node do, or `None` for an internal
/// definition whose name the engine does not know.
pub open spec fn kind_of(is_internal: bool, name: Seq<char>) -> Option<NodeKind> {
    if !is_internal {
        Some(NodeKind::Script)
    } else if name == "BeginRequest"@ {
        Some(NodeKind::BeginRequest)
    } else if name == "EndRequest"@ {
        Some(NodeKind::EndRequest)
    } else if name == "Breaker"@ {
        Some(NodeKind::Breaker)
    } else if name == "True"@ {
        Some(NodeKind::True)
    } else if name == "False"@ {
        Some(NodeKind::False)
    } else if name == "Empty"@ {
        Some(NodeKind::Empty)
    } else {
        None
    }
}

/// The kind the node at index `i` binds to, or `None` when its reference
/// does not resolve or its internal name is unknown.
pub open spec fn spec_kind(nodes: Seq<GraphNode>, defs: Seq<NodeDefinition>, i: int) -> Option<
    NodeKind,
> {
    if !def_resolves(defs, nodes[i].data.id@) {
        None
    } else {
        kind_of(
            defs[def_index(defs, nodes[i].data.id@)].is_internal,
            defs[def_index(defs, nodes[i].data.id@)].name@,
        )
    }
}

/// True when the node at index `i` resolves and its kind is known.
pub open spec fn node_binds(nodes: Seq<GraphNode>, defs: Seq<NodeDefinition>, i: int) -> bool {
    spec_kind(nodes, defs, i) is Some
}

/// True when every node of the graph binds.
pub open spec fn all_bind(nodes: Seq<GraphNode>, defs: Seq<NodeDefinition>) -> bool {
    forall|i: int| 0 <= i < nodes.len() ==> node_binds(nodes, defs, i)
}

/// True when exactly one node of the graph binds to kind `k`.
pub open spec fn kind_unique(
    nodes: Seq<GraphNode>,
    defs: Seq<NodeDefinition>,
    k: NodeKind,
) -> bool {
    &&& exists|i: int| 0 <= i < nodes.len() && spec_kind(nodes, defs, i) == Some(k)
    &&& forall|i: int, j: int|
        0 <= i < nodes.len() && 0 <= j < nodes.len() && spec_kind(nodes, defs, i) == Some(k)
            && spec_kind(nodes, defs, j) == Some(k) ==> i == j
}

/// The index of the first definition whose id is `id`, scanning in store
/// order.
fn find_definition(defs: &Vec<NodeDefinition>, id: &str) -> (r: Option<usize>)
    ensures
        match r {
            Some(j) => is_first_def(defs@, id@, j as int),
            None => forall|l: int| 0 <= l < defs@.len() ==> defs@[l].id@ != id@,
        },
{
    let mut j: usize = 0;
    while j < defs.len()
        invariant
            j <= defs@.len(),
            forall|l: int| 0 <= l < j ==> defs@[l].id@ != id@,
        decreases defs@.len() - j,
    {
        if str_eq(defs[j].id.as_str(), id) {
            return Some(j);
        }
        j = j + 1;
    }
    None
}

/// The kind a definition gives its nodes.
fn resolve_kind(def: &NodeDefinition) -> (r: Option<NodeKind>)
    ensures
        r == kind_of(def.is_internal, def.name@),
{
    if !def.is_internal {
        return Some(NodeKind::Script);
    }
    if str_eq(def.name.as_str(), "BeginRequest") {
        return Some(NodeKind::BeginRequest);
    }
    if str_eq(def.name.as_str(), "EndRequest") {
        return Some(NodeKind::EndRequest);
    }
    if str_eq(def.name.as_str(), "Breaker") {
        return Some(NodeKind::Breaker);
    }
    if str_eq(def.name.as_str(), "True") {
        return Some(NodeKind::True);
    }
    if str_eq(def.name.as_str(), "False") {
        return Some(NodeKind::False);
    }
    if str_eq(def.name.as_str(), "Empty") {
        return Some(NodeKind::Empty);
    }
    None
}

/// Bind a graph against a store of node definitions.
///
/// Succeeds exactly when every node's reference resolves, every internal
/// name is known, and the bound nodes contain exactly one `BeginRequest`
/// and exactly one `EndRequest`. The bound graph pairs each placed node,
/// in order, with the first matching definition and its resolved kind.
pub fn bind(graph: Graph, defs: &Vec<NodeDefinition>) -> (r: Result<BoundGraph, BindError>)
    ensures
        (r is Ok) <==> (all_bind(graph.nodes@, defs@) && kind_unique(
            graph.nodes@,
            defs@,
            NodeKind::BeginRequest,
        ) && kind_unique(graph.nodes@, defs@, NodeKind::EndRequest)),
        r matches Ok(b) ==> b.wf(),
        r matches Ok(b) ==> b.edges@ == graph.edges@,
        r matches Ok(b) ==> b.nodes@.len() == graph.nodes@.len(),
        r matches Ok(b) ==> forall|i: int|
            0 <= i < graph.nodes@.len() ==> node_like(
                (#[trigger] b.nodes@[i]).graph_node,
                graph.nodes@[i],
            ),
        r matches Ok(b) ==> forall|i: int|
            0 <= i < graph.nodes@.len() ==> Some((#[trigger] b.nodes@[i]).kind) == spec_kind(
                graph.nodes@,
                defs@,
                i,
            ),
        r matches Ok(b) ==> forall|i: int|
            0 <= i < graph.nodes@.len() ==> def_like(
                (#[trigger] b.nodes@[i]).definition,
                defs@[def_index(defs@, graph.nodes@[i].data.id@)],
            ),
        r matches Err(BindError::UnresolvedNodeReference { node_ref }) ==> exists|i: int|
            0 <= i < graph.nodes@.len() && (forall|j: int|
                0 <= j < i ==> node_binds(graph.nodes@, defs@, j)) && !def_resolves(
                defs@,
                graph.nodes@[i].data.id@,
            ) && node_ref@ == graph.nodes@[i].data.id@,
        r matches Err(BindError::UnknownInternalNode { name }) ==> exists|i: int|
            0 <= i < graph.nodes@.len() && (forall|j: int|
                0 <= j < i ==> node_binds(graph.nodes@, defs@, j)) && def_resolves(
                defs@,
                graph.nodes@[i].data.id@,
            ) && spec_kind(graph.nodes@, defs@, i) is None && name@ == defs@[def_index(
                defs@,
                graph.nodes@[i].data.id@,
            )].name@,
        r matches Err(BindError::MissingEntryOrTerminal) ==> all_bind(graph.nodes@, defs@) && !(
        kind_unique(graph.nodes@, defs@, NodeKind::BeginRequest) && kind_unique(
            graph.nodes@,
            defs@,
            NodeKind::EndRequest,
        )),
{
    let mut combined: Vec<CombinedNode> = Vec::new();
    let mut i: usize = 0;
    while i < graph.nodes.len()
        invariant
            i <= graph.nodes@.len(),
            combined@.len() == i,
            forall|j: int| 0 <= j < i ==> node_binds(graph.nodes@, defs@, j),
            forall|j: int|
                0 <= j < i ==> node_like((#[trigger] combined@[j]).graph_node, graph.nodes@[j]),
            forall|j: int|
                0 <= j < i ==> Some((#[trigger] combined@[j]).kind) == spec_kind(
                    graph.nodes@,
                    defs@,
                    j,
                ),
            forall|j: int|
                0 <= j < i ==> def_like(
                    (#[trigger] combined@[j]).definition,
                    defs@[def_index(defs@, graph.nodes@[j].data.id@)],
                ),
        decreases graph.nodes@.len() - i,
    {
        let node = &graph.nodes[i];
        match find_definition(defs, node.data.id.as_str()) {
            None => {
                proof {
                    assert(!node_binds(graph.nodes@, defs@, i as int));
                }
                return Err(BindError::UnresolvedNodeReference { node_ref: node.data.id.clone() });
            },
            Some(j) => {
                proof {
                    lemma_def_index(defs@, node.data.id@, j as int);
                }
                let def = &defs[j];
                match resolve_kind(def) {
                    None => {
                        proof {
                            assert(!node_binds(graph.nodes@, defs@, i as int));
                        }
                        return Err(BindError::UnknownInternalNode { name: def.name.clone() });
                    },
                    Some(kind) => {
                        combined.push(
                            CombinedNode {
                                graph_node: node.clone(),
                                definition: def.clone(),
                                kind,
                            },
                        );
                    },
                }
            },
        }
        i = i + 1;
    }
    let n = combined.len();
    let mut entry_opt: Option<usize> = None;
    let mut term_opt: Option<usize> = None;
    let mut dup_entry: bool = false;
    let mut dup_term: bool = false;
    let mut k: usize = 0;
    while k < n
        invariant
            n == combined@.len(),
            n == graph.nodes@.len(),
            k <= n,
            forall|j: int| 0 <= j < n ==> node_binds(graph.nodes@, defs@, j),
            forall|j: int|
                0 <= j < n ==> Some((#[trigger] combined@[j]).kind) == spec_kind(
                    graph.nodes@,
                    defs@,
                    j,
                ),
            (entry_opt is Some) <==> exists|l: int|
                0 <= l < k && (#[trigger] combined@[l].kind) == NodeKind::BeginRequest,
            entry_opt matches Some(e) ==> e < k && combined@[e as int].kind
                == NodeKind::BeginRequest && (forall|l: int|
                0 <= l < e ==> (#[trigger] combined@[l].kind) != NodeKind::BeginRequest),
            dup_entry <==> exists|l: int, m: int|
                0 <= l < m < k && (#[trigger] combined@[l].kind) == NodeKind::BeginRequest && (
                #[trigger] combined@[m].kind) == NodeKind::BeginRequest,
            (term_opt is Some) <==> exists|l: int|
                0 <= l < k && (#[trigger] combined@[l].kind) == NodeKind::EndRequest,
            term_opt matches Some(e) ==> e < k && combined@[e as int].kind == NodeKind::EndRequest
                && (forall|l: int|
                0 <= l < e ==> (#[trigger] combined@[l].kind) != NodeKind::EndRequest),
            dup_term <==> exists|l: int, m: int|
                0 <= l < m < k && (#[trigger] combined@[l].kind) == NodeKind::EndRequest && (
                #[trigger] combined@[m].kind) == NodeKind::EndRequest,
        decreases n - k,
    {
        match combined[k].kind {
            NodeKind::BeginRequest => {
                if entry_opt.is_some() {
                    dup_entry = true;
                } else {
                    entry_opt = Some(k);
                }
            },
            NodeKind::EndRequest => {
                if term_opt.is_some() {
                    dup_term = true;
                } else {
                    term_opt = Some(k);
                }
            },
            _ => {},
        }
        k = k + 1;
    }
    if dup_entry || dup_term {
        proof {
            assert(all_bind(graph.nodes@, defs@));
            if dup_entry {
                let (l, m) = choose|l: int, m: int|
                    0 <= l < m < n && combined@[l].kind == NodeKind::BeginRequest
                        && combined@[m].kind == NodeKind::BeginRequest;
                assert(Some(combined@[l].kind) == spec_kind(graph.nodes@, defs@, l));
                assert(Some(combined@[m].kind) == spec_kind(graph.nodes@, defs@, m));
                assert(!kind_unique(graph.nodes@, defs@, NodeKind::BeginRequest));
            } else {
                let (l, m) = choose|l: int, m: int|
                    0 <= l < m < n && combined@[l].kind == NodeKind::EndRequest
                        && combined@[m].kind == NodeKind::EndRequest;
                assert(Some(combined@[l].kind) == spec_kind(graph.nodes@, defs@, l));
                assert(Some(combined@[m].kind) == spec_kind(graph.nodes@, defs@, m));
                assert(!kind_unique(graph.nodes@, defs@, NodeKind::EndRequest));
            }
        }
        return Err(BindError::MissingEntryOrTerminal);
    }
    if entry_opt.is_none() {
        proof {
            assert(all_bind(graph.nodes@, defs@));
            assert(!kind_unique(graph.nodes@, defs@, NodeKind::BeginRequest)) by {
                if kind_unique(graph.nodes@, defs@, NodeKind::BeginRequest) {
                    let w = choose|w: int|
                        0 <= w < graph.nodes@.len() && spec_kind(graph.nodes@, defs@, w) == Some(
                            NodeKind::BeginRequest,
                        );
                    assert(Some(combined@[w].kind) == spec_kind(graph.nodes@, defs@, w));
                    assert(0 <= w < n && combined@[w].kind == NodeKind::BeginRequest);
                    assert(false);
                }
            }
        }
        return Err(BindError::MissingEntryOrTerminal);
    }
    if term_opt.is_none() {
        proof {
            assert(all_bind(graph.nodes@, defs@));
            assert(!kind_unique(graph.nodes@, defs@, NodeKind::EndRequest)) by {
                if kind_unique(graph.nodes@, defs@, NodeKind::EndRequest) {
                    let w = choose|w: int|
                        0 <= w < graph.nodes@.len() && spec_kind(graph.nodes@, defs@, w) == Some(
                            NodeKind::EndRequest,
                        );
                    assert(Some(combined@[w].kind) == spec_kind(graph.nodes@, defs@, w));
                    assert(0 <= w < n && combined@[w].kind == NodeKind::EndRequest);
                    assert(false);
                }
            }
        }
        return Err(BindError::MissingEntryOrTerminal);
    }
    let entry = entry_opt.unwrap();
    let terminal = term_opt.unwrap();
    proof {
        assert(all_bind(graph.nodes@, defs@));
        assert(Some(combined@[entry as int].kind) == spec_kind(graph.nodes@, defs@, entry as int));
        assert(Some(combined@[terminal as int].kind) == spec_kind(
            graph.nodes@,
            defs@,
            terminal as int,
        ));
        assert forall|i: int|
            0 <= i < n && (#[trigger] combined@[i].kind)
                == NodeKind::BeginRequest implies i == entry as int by {
            if i < entry as int {
                assert(false);
            } else if i > entry as int {
                assert(0 <= (entry as int) && (entry as int) < i && i < n);
                assert(combined@[entry as int].kind == NodeKind::BeginRequest);
                assert(false);
            }
        }
        assert forall|i: int|
            0 <= i < n && (#[trigger] combined@[i].kind)
                == NodeKind::EndRequest implies i == terminal as int by {
            if i < terminal as int {
                assert(false);
            } else if i > terminal as int {
                assert(0 <= (terminal as int) && (terminal as int) < i && i < n);
                assert(combined@[terminal as int].kind == NodeKind::EndRequest);
                assert(false);
            }
        }
        assert(kind_unique(graph.nodes@, defs@, NodeKind::BeginRequest)) by {
            assert forall|i: int, j: int|
                0 <= i < graph.nodes@.len() && 0 <= j < graph.nodes@.len() && spec_kind(
                    graph.nodes@,
                    defs@,
                    i,
                ) == Some(NodeKind::BeginRequest) && spec_kind(graph.nodes@, defs@, j) == Some(
                    NodeKind::BeginRequest,
                ) implies i == j by {
                assert(Some(combined@[i].kind) == spec_kind(graph.nodes@, defs@, i));
                assert(Some(combined@[j].kind) == spec_kind(graph.nodes@, defs@, j));
            }
        }
        assert(kind_unique(graph.nodes@, defs@, NodeKind::EndRequest)) by {
            assert forall|i: int, j: int|
                0 <= i < graph.nodes@.len() && 0 <= j < graph.nodes@.len() && spec_kind(
                    graph.nodes@,
                    defs@,
                    i,
                ) == Some(NodeKind::EndRequest) && spec_kind(graph.nodes@, defs@, j) == Some(
                    NodeKind::EndRequest,
                ) implies i == j by {
                assert(Some(combined@[i].kind) == spec_kind(graph.nodes@, defs@, i));
                assert(Some(combined@[j].kind) == spec_kind(graph.nodes@, defs@, j));
            }
        }
    }
    Ok(BoundGraph { nodes: combined, edges: graph.edges, entry, terminal })
}

} // verus!
