//! Frontier scheduling over control edges: the initial wave is every node
//! with no incoming control edge; each following wave is the targets of
//! the control edges leaving the current frontier, in frontier order then
//! edge order. No deduplication is performed: a target reachable from two
//! frontier nodes appears twice and runs twice in the next wave, which is
//! the documented behaviour of the graphs this engine executes.

use vstd::prelude::*;
use crate::graph::{BoundGraph, is_control_in, is_control_out};
use crate::run::RunState;
use crate::text::str_eq;

verus! {

/// True when some control edge orders node `i` after another node.
pub open spec fn has_control_in(b: BoundGraph, i: int) -> bool {
    exists|k: int| 0 <= k < b.edges@.len() && is_control_in(b.edges@[k], b.node_id(i))
}

/// The nodes among the first `n` with no incoming control edge, in order.
pub open spec fn initial_upto(b: BoundGraph, n: int) -> Seq<usize>
    decreases n,
{
    if n <= 0 {
        Seq::empty()
    } else if !has_control_in(b, n - 1) {
        initial_upto(b, n - 1).push((n - 1) as usize)
    } else {
        initial_upto(b, n - 1)
    }
}

/// The initial frontier: every node with no incoming control edge, in
/// node order.
pub open spec fn initial_frontier(b: BoundGraph) -> Seq<usize> {
    initial_upto(b, b.nodes@.len() as int)
}

/// Whether some control edge targets node `i`.
fn node_has_control_in(b: &BoundGraph, i: usize) -> (r: bool)
    requires
        i < b.nodes@.len(),
    ensures
        r == has_control_in(*b, i as int),
{
    let mut k: usize = 0;
    while k < b.edges.len()
        invariant
            k <= b.edges@.len(),
            i < b.nodes@.len(),
            forall|l: int| 0 <= l < k ==> !is_control_in(#[trigger] b.edges@[l], b.node_id(i as int)),
        decreases b.edges@.len() - k,
    {
        if str_eq(b.edges[k].target.as_str(), b.nodes[i].graph_node.id.as_str()) && str_eq(
            b.edges[k].target_handle.as_str(),
            "to-node",
        ) {
            proof {
                assert(is_control_in(b.edges@[k as int], b.node_id(i as int)));
            }
            return true;
        }
        k = k + 1;
    }
    false
}

/// Compute the initial frontier into the run state's live frontier.
pub fn initial_wave(b: &BoundGraph, st: &mut RunState)
    requires
        old(st)@.inv(*b),
    ensures
        final(st)@.current == initial_frontier(*b),
        final(st)@.cache == old(st)@.cache,
        final(st)@.wave == old(st)@.wave,
        final(st)@.pos == old(st)@.pos,
        final(st)@.awaiting == old(st)@.awaiting,
        final(st)@.finished == old(st)@.finished,
        final(st)@.inv(*b),
{
    let n = b.nodes.len();
    let mut cur: Vec<usize> = Vec::new();
    let mut i: usize = 0;
    while i < n
        invariant
            i <= n,
            n == b.nodes@.len(),
            cur@ == initial_upto(*b, i as int),
            forall|l: int| 0 <= l < cur@.len() ==> (#[trigger] cur@[l]) < n,
        decreases n - i,
    {
        if !node_has_control_in(b, i) {
            cur.push(i);
        }
        i = i + 1;
    }
    st.current = cur;
}

/// The control successors of the node with graph id `id` among the first
/// `n` edges, as node indices, in edge order.
pub open spec fn succ_upto(b: BoundGraph, id: Seq<char>, n: int) -> Seq<usize>
    decreases n,
{
    if n <= 0 {
        Seq::empty()
    } else if is_control_out(b.edges@[n - 1], id) {
        succ_upto(b, id, n - 1).push(b.index_of(b.edges@[n - 1].target@) as usize)
    } else {
        succ_upto(b, id, n - 1)
    }
}

/// The control successors of node `i`, in edge order.
pub open spec fn node_succs(b: BoundGraph, i: int) -> Seq<usize> {
    succ_upto(b, b.node_id(i), b.edges@.len() as int)
}

/// The successors of the first `n` frontier entries, concatenated.
pub open spec fn wave_succs_upto(b: BoundGraph, f: Seq<usize>, n: int) -> Seq<usize>
    decreases n,
{
    if n <= 0 {
        Seq::empty()
    } else {
        wave_succs_upto(b, f, n - 1) + node_succs(b, f[n - 1] as int)
    }
}

/// The next frontier: targets of every control edge out of the frontier,
/// in frontier order then edge order, duplicates kept.
pub open spec fn wave_succs(b: BoundGraph, f: Seq<usize>) -> Seq<usize> {
    wave_succs_upto(b, f, f.len() as int)
}

/// Replace the live frontier with its control successors.
pub fn advance_wave(b: &BoundGraph, st: &mut RunState)
    requires
        b.ids_unique(),
        b.edges_resolve(),
        old(st)@.inv(*b),
    ensures
        final(st)@.current == wave_succs(*b, old(st)@.current),
        final(st)@.cache == old(st)@.cache,
        final(st)@.wave == old(st)@.wave,
        final(st)@.pos == old(st)@.pos,
        final(st)@.awaiting == old(st)@.awaiting,
        final(st)@.finished == old(st)@.finished,
        final(st)@.inv(*b),
{
    let mut next: Vec<usize> = Vec::new();
    let mut i: usize = 0;
    while i < st.current.len()
        invariant
            b.ids_unique(),
            b.edges_resolve(),
            st@.inv(*b),
            i <= st.current@.len(),
            next@ == wave_succs_upto(*b, st.current@, i as int),
            forall|l: int| 0 <= l < next@.len() ==> (#[trigger] next@[l]) < b.nodes@.len(),
        decreases st.current@.len() - i,
    {
        let node_idx = st.current[i];
        proof {
            assert(st@.current[i as int] < b.nodes@.len());
        }
        let ghost id = b.node_id(node_idx as int);
        let mut k: usize = 0;
        while k < b.edges.len()
            invariant
                b.ids_unique(),
                b.edges_resolve(),
                st@.inv(*b),
                i < st.current@.len(),
                node_idx == st.current@[i as int],
                node_idx < b.nodes@.len(),
                id == b.node_id(node_idx as int),
                k <= b.edges@.len(),
                next@ == wave_succs_upto(*b, st.current@, i as int) + succ_upto(*b, id, k as int),
                forall|l: int| 0 <= l < next@.len() ==> (#[trigger] next@[l]) < b.nodes@.len(),
            decreases b.edges@.len() - k,
        {
            let is_out = str_eq(b.edges[k].source.as_str(), b.nodes[node_idx].graph_node.id.as_str())
                && str_eq(b.edges[k].source_handle.as_str(), "from-node");
            if is_out {
                proof {
                    assert(is_control_out(b.edges@[k as int], id));
                }
                match b.find_node(b.edges[k].target.as_str()) {
                    Some(t) => {
                        proof {
                            let tid = b.edges@[k as int].target@;
                            assert(0 <= t < b.nodes@.len() && b.node_id(t as int) == tid);
                            let i0 = b.index_of(tid);
                            assert(0 <= i0 < b.nodes@.len() && b.node_id(i0) == tid) by {
                                assert(exists|w: int|
                                    0 <= w < b.nodes@.len() && b.node_id(w) == tid) by {
                                    assert(b.node_id(t as int) == tid);
                                }
                            }
                            assert(i0 == t as int);
                        }
                        next.push(t);
                    },
                    None => {
                        proof {
                            assert(b.resolves(b.edges@[k as int].target@));
                            assert(false);
                        }
                    },
                }
            }
            k = k + 1;
        }
        i = i + 1;
    }
    st.current = next;
}

} // verus!
