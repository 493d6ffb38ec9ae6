//! Engine-wide properties, stated and proved against the step and wave
//! models that the executable functions refine.

use vstd::prelude::*;
use crate::dispatch::{
    SpecStep, SpecWave, advance_pos, gather_spec, step_at, wave_run, wave_start, without,
};
use crate::graph::{BoundGraph, NodeKind};
use crate::run::RunModel;
use crate::schedule::{has_control_in, initial_frontier, initial_upto, wave_succs};
use crate::value::SpecValue;

verus! {

proof fn lemma_initial_upto_members(b: BoundGraph, n: int, x: usize)
    requires
        0 <= n <= usize::MAX,
    ensures
        initial_upto(b, n).contains(x) <==> ((x as int) < n && !has_control_in(b, x as int)),
    decreases n,
{
    if n > 0 {
        lemma_initial_upto_members(b, n - 1, x);
        if (x as int) < n && !has_control_in(b, x as int) {
            if (x as int) == n - 1 {
                assert(initial_upto(b, n).last() == x);
                assert(initial_upto(b, n).contains(x));
            } else {
                let i = choose|i: int|
                    0 <= i < initial_upto(b, n - 1).len() && (#[trigger] initial_upto(
                        b,
                        n - 1,
                    )[i]) == x;
                assert(initial_upto(b, n)[i] == x);
            }
        } else {
            if initial_upto(b, n).contains(x) {
                let i = choose|i: int|
                    0 <= i < initial_upto(b, n).len() && (#[trigger] initial_upto(b, n)[i])
                        == x;
                if !has_control_in(b, n - 1) && i == initial_upto(b, n).len() - 1 {
                    assert(x as int == n - 1);
                } else {
                    assert(initial_upto(b, n - 1)[i] == x);
                    assert(initial_upto(b, n - 1).contains(x));
                }
            }
        }
    }
}

/// The initial wave holds exactly the nodes with no incoming control
/// edge. In well-formed graphs that is just the entry node, but the
/// scheduler does not enforce it: any node lacking an incoming control
/// edge is eligible, a looseness graph authors must respect.
pub proof fn lemma_initial_frontier_members(b: BoundGraph, x: usize)
    ensures
        initial_frontier(b).contains(x) <==> (x < b.nodes@.len() && !has_control_in(
            b,
            x as int,
        )),
{
    assert(b.nodes.len() == b.nodes@.len());
    lemma_initial_upto_members(b, b.nodes@.len() as int, x);
}

/// `True`, `False` and `Empty` nodes always write exactly their fixed
/// literal to output port `out`, whatever values their wired inputs
/// gathered: the stored cache entry is the one-key record `out` to the
/// literal, independent of the gathered record.
pub proof fn lemma_literal_nodes_write_fixed_output(b: BoundGraph, m: RunModel)
    requires
        b.wf(),
        0 <= m.pos < m.wave.len(),
        m.wave[m.pos] < b.nodes@.len(),
        m.wave[m.pos] < m.cache.len(),
        b.nodes@[m.wave[m.pos] as int].kind == NodeKind::True || b.nodes@[m.wave[
            m.pos
        ] as int].kind == NodeKind::False || b.nodes@[m.wave[m.pos] as int].kind
            == NodeKind::Empty,
        gather_spec(b, m.cache, b.node_id(m.wave[m.pos] as int)) is Ok,
    ensures
        step_at(b, m) matches SpecStep::Done(m2) && m2.cache[m.wave[m.pos] as int] == Some(
            Map::<Seq<char>, SpecValue>::empty().insert(
                "out"@,
                match b.nodes@[m.wave[m.pos] as int].kind {
                    NodeKind::True => SpecValue::Bool(true),
                    NodeKind::False => SpecValue::Bool(false),
                    _ => SpecValue::Null,
                },
            ),
        ),
{
    let j = m.wave[m.pos] as int;
    assert(b.nodes@[j].kind != NodeKind::BeginRequest);
    assert(j != b.entry);
}

/// A `Breaker` whose `condition` input gathers to `false` removes
/// exactly its own occurrences from the live frontier and writes
/// nothing: the following wave, computed from the pruned frontier, is
/// exactly the successors of the remaining nodes, so only the paths
/// reachable through the breaker's outgoing control edges disappear.
pub proof fn lemma_breaker_false_prunes(b: BoundGraph, m: RunModel)
    requires
        b.wf(),
        0 <= m.pos < m.wave.len(),
        m.wave[m.pos] < b.nodes@.len(),
        b.nodes@[m.wave[m.pos] as int].kind == NodeKind::Breaker,
        gather_spec(b, m.cache, b.node_id(m.wave[m.pos] as int)) matches Ok(inp)
            && inp.contains_key("condition"@) && inp["condition"@] == SpecValue::Bool(false),
    ensures
        step_at(b, m) matches SpecStep::Done(m2) && m2.current == without(
            m.current,
            m.wave[m.pos],
        ) && m2.cache == m.cache && wave_succs(b, m2.current) == wave_succs(
            b,
            without(m.current, m.wave[m.pos]),
        ),
{
    let j = m.wave[m.pos] as int;
    assert(b.nodes@[j].kind != NodeKind::BeginRequest);
    assert(j != b.entry);
}

/// A `Breaker` whose `condition` input gathers to `true` has no special
/// effect: the frontier and the cache are left exactly as they were.
pub proof fn lemma_breaker_true_keeps_frontier(b: BoundGraph, m: RunModel)
    requires
        b.wf(),
        0 <= m.pos < m.wave.len(),
        m.wave[m.pos] < b.nodes@.len(),
        b.nodes@[m.wave[m.pos] as int].kind == NodeKind::Breaker,
        gather_spec(b, m.cache, b.node_id(m.wave[m.pos] as int)) matches Ok(inp)
            && inp.contains_key("condition"@) && inp["condition"@] == SpecValue::Bool(true),
    ensures
        step_at(b, m) matches SpecStep::Done(m2) && m2.current == m.current && m2.cache
            == m.cache,
{
    let j = m.wave[m.pos] as int;
    assert(b.nodes@[j].kind != NodeKind::BeginRequest);
    assert(j != b.entry);
}

/// Round trip: when the wave reaches `EndRequest` with a gathered input
/// record holding `x` under the key `data`, the terminal flag is set and
/// the terminal node's stored cache entry holds exactly `x` under
/// `data` — which is precisely the value `extract_result` then returns.
pub proof fn lemma_end_request_round_trip(b: BoundGraph, m: RunModel, x: SpecValue)
    requires
        b.wf(),
        0 <= m.pos < m.wave.len(),
        m.wave[m.pos] < b.nodes@.len(),
        m.wave[m.pos] < m.cache.len(),
        b.nodes@[m.wave[m.pos] as int].kind == NodeKind::EndRequest,
        gather_spec(b, m.cache, b.node_id(m.wave[m.pos] as int)) matches Ok(inp)
            && inp.contains_key("data"@) && inp["data"@] == x,
    ensures
        step_at(b, m) matches SpecStep::Done(m2) && m2.finished == Some(m.wave[m.pos]) && (
        m2.cache[m.wave[m.pos] as int] matches Some(rec) && rec.contains_key("data"@)
            && rec["data"@] == x),
{
    let j = m.wave[m.pos] as int;
    assert(b.nodes@[j].kind != NodeKind::BeginRequest);
    assert(j != b.entry);
}

/// The entry node is never dispatched: taking it from the wave only
/// advances the position, consuming no inputs and writing nothing — its
/// cache entry was pre-seeded when the run started.
pub proof fn lemma_entry_short_circuit(b: BoundGraph, m: RunModel)
    requires
        0 <= m.pos < m.wave.len(),
        m.wave[m.pos] == b.entry,
    ensures
        step_at(b, m) == SpecStep::Done(advance_pos(m)),
{
}

/// An emptied frontier never refills: dispatching it does nothing and
/// its successor wave is empty again. A driving loop that sees an empty
/// frontier on an incomplete run must therefore report that the graph
/// never terminates instead of spinning.
pub proof fn lemma_empty_frontier_stays_empty(b: BoundGraph, m: RunModel)
    requires
        m.current.len() == 0,
    ensures
        wave_run(b, wave_start(m)) == SpecWave::Completed(wave_start(m)),
        wave_succs(b, m.current) == Seq::<usize>::empty(),
{
}

/// Once the terminal flag is set it stays set for the rest of the wave.
proof fn lemma_wave_keeps_finished(b: BoundGraph, m: RunModel)
    requires
        m.finished is Some,
    ensures
        wave_run(b, m) matches SpecWave::Completed(m2) ==> m2.finished is Some,
    decreases m.wave.len() - m.pos,
{
    if 0 <= m.pos < m.wave.len() {
        match step_at(b, m) {
            SpecStep::Done(m2) => {
                assert(m2.finished is Some);
                lemma_wave_keeps_finished(b, m2);
            },
            _ => {},
        }
    }
}

/// A wave whose remaining entries include the terminal node and whose
/// dispatch runs to completion without pausing or failing leaves the run
/// complete: the terminal flag is set after the wave. Together with the
/// termination of every engine function this is what makes a well-formed
/// run — one whose waves reach `EndRequest` and whose nodes dispatch
/// without error — finish with `is_complete` true.
pub proof fn lemma_wave_reaching_terminal_completes(b: BoundGraph, m: RunModel)
    requires
        b.wf(),
        0 <= m.pos,
        forall|k: int| 0 <= k < m.wave.len() ==> (#[trigger] m.wave[k]) < b.nodes@.len(),
        exists|i: int| m.pos <= i < m.wave.len() && m.wave[i] == b.terminal,
    ensures
        wave_run(b, m) matches SpecWave::Completed(m2) ==> m2.finished is Some,
    decreases m.wave.len() - m.pos,
{
    let i = choose|i: int| m.pos <= i < m.wave.len() && m.wave[i] == b.terminal;
    assert(0 <= m.pos < m.wave.len());
    let j = m.wave[m.pos] as int;
    assert(b.nodes@[b.terminal as int].kind == NodeKind::EndRequest);
    assert(b.nodes@[b.entry as int].kind == NodeKind::BeginRequest);
    match step_at(b, m) {
        SpecStep::Done(m2) => {
            if m.wave[m.pos] == b.terminal {
                assert(j != b.entry);
                assert(m2.finished is Some);
                lemma_wave_keeps_finished(b, m2);
            } else {
                assert(i >= m.pos + 1);
                assert(m2.pos == m.pos + 1 && m2.wave == m.wave && m2.finished == m.finished);
                lemma_wave_reaching_terminal_completes(b, m2);
            }
        },
        _ => {},
    }
}

} // verus!
