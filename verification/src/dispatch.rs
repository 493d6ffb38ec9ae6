//! Node dispatch: gather a node's data inputs from the cache, run the
//! built-in behaviour of internal nodes, and exchange script work with
//! the sandbox that executes user source text.
//!
//! The engine itself never runs a script. When dispatch reaches a script
//! node it pauses and hands the caller a `ScriptCall`; the caller runs
//! the node's source in an isolated context of its sandbox and feeds the
//! returned record back through `supply_script_output`, which stores one
//! value per declared output port and resumes the wave.

use vstd::prelude::*;
use crate::graph::{BoundGraph, NodeKind, is_data_in, source_port, target_port, views_of};
use crate::run::{DispatchError, RunModel, RunState, SpecDispatchError, cache_view};
use crate::text::{str_eq, strip_prefix_rep};
use crate::value::{Record, SpecValue, Value};

verus! {

/// The inputs gathered for the node with graph id `id` from the first
/// `n` edges: one entry per data edge into the node, keyed by the edge's
/// stripped target handle, holding the source node's cached output named
/// by the edge's stripped source handle. The first data edge whose source
/// has not produced the named output fails the gather.
pub open spec fn gather_upto(
    b: BoundGraph,
    cache: Seq<Option<Map<Seq<char>, SpecValue>>>,
    id: Seq<char>,
    n: int,
) -> Result<Map<Seq<char>, SpecValue>, SpecDispatchError>
    decreases n,
{
    if n <= 0 {
        Ok(Map::empty())
    } else {
        match gather_upto(b, cache, id, n - 1) {
            Err(er) => Err(er),
            Ok(m) => {
                let e = b.edges@[n - 1];
                if is_data_in(e, id) {
                    if !b.resolves(e.source@) {
                        Err(SpecDispatchError::MissingUpstreamOutput { edge_id: e.id@ })
                    } else {
                        match cache[b.index_of(e.source@)] {
                            None => Err(
                                SpecDispatchError::MissingUpstreamOutput { edge_id: e.id@ },
                            ),
                            Some(rec) => if rec.contains_key(source_port(e)) {
                                Ok(m.insert(target_port(e), rec[source_port(e)]))
                            } else {
                                Err(SpecDispatchError::MissingUpstreamOutput { edge_id: e.id@ })
                            },
                        }
                    }
                } else {
                    Ok(m)
                }
            },
        }
    }
}

/// The input record gathered for the node with graph id `id`.
pub open spec fn gather_spec(
    b: BoundGraph,
    cache: Seq<Option<Map<Seq<char>, SpecValue>>>,
    id: Seq<char>,
) -> Result<Map<Seq<char>, SpecValue>, SpecDispatchError> {
    gather_upto(b, cache, id, b.edges@.len() as int)
}

proof fn lemma_gather_err_stable(
    b: BoundGraph,
    cache: Seq<Option<Map<Seq<char>, SpecValue>>>,
    id: Seq<char>,
    n0: int,
    n: int,
)
    requires
        0 <= n0 <= n,
        gather_upto(b, cache, id, n0) is Err,
    ensures
        gather_upto(b, cache, id, n) == gather_upto(b, cache, id, n0),
    decreases n - n0,
{
    if n > n0 {
        lemma_gather_err_stable(b, cache, id, n0, n - 1);
    }
}

/// Gather the data inputs of node `j` from the cache.
fn gather_inputs(b: &BoundGraph, cache: &Vec<Option<Record>>, j: usize) -> (r: Result<
    Record,
    DispatchError,
>)
    requires
        b.ids_unique(),
        b.edges_resolve(),
        j < b.nodes@.len(),
        cache@.len() == b.nodes@.len(),
    ensures
        match r {
            Ok(rec) => gather_spec(*b, cache_view(cache@), b.node_id(j as int)) matches Ok(m)
                && rec@ == m,
            Err(er) => gather_spec(*b, cache_view(cache@), b.node_id(j as int)) matches Err(se)
                && er@ == se,
        },
{
    let ghost id = b.node_id(j as int);
    let mut rec = Record::new();
    let mut k: usize = 0;
    while k < b.edges.len()
        invariant
            b.ids_unique(),
            b.edges_resolve(),
            j < b.nodes@.len(),
            cache@.len() == b.nodes@.len(),
            id == b.node_id(j as int),
            k <= b.edges@.len(),
            gather_upto(*b, cache_view(cache@), id, k as int) matches Ok(m) && rec@ == m,
        decreases b.edges@.len() - k,
    {
        let is_data = str_eq(b.edges[k].target.as_str(), b.nodes[j].graph_node.id.as_str())
            && !str_eq(b.edges[k].target_handle.as_str(), "to-node");
        if is_data {
            proof {
                assert(is_data_in(b.edges@[k as int], id));
            }
            match b.find_node(b.edges[k].source.as_str()) {
                None => {
                    proof {
                        assert(b.resolves(b.edges@[k as int].source@));
                        assert(false);
                    }
                    return Err(
                        DispatchError::MissingUpstreamOutput { edge_id: b.edges[k].id.clone() },
                    );
                },
                Some(src) => {
                    proof {
                        let sid = b.edges@[k as int].source@;
                        let i0 = b.index_of(sid);
                        assert(0 <= i0 < b.nodes@.len() && b.node_id(i0) == sid) by {
                            assert(exists|w: int|
                                0 <= w < b.nodes@.len() && b.node_id(w) == sid) by {
                                assert(b.node_id(src as int) == sid);
                            }
                        }
                        assert(i0 == src as int);
                    }
                    let source_key = strip_prefix_rep(b.edges[k].source_handle.as_str(), "output-");
                    match &cache[src] {
                        None => {
                            proof {
                                lemma_gather_err_stable(
                                    *b,
                                    cache_view(cache@),
                                    id,
                                    k as int + 1,
                                    b.edges@.len() as int,
                                );
                            }
                            return Err(
                                DispatchError::MissingUpstreamOutput {
                                    edge_id: b.edges[k].id.clone(),
                                },
                            );
                        },
                        Some(src_rec) => {
                            match src_rec.get(source_key.as_str()) {
                                None => {
                                    proof {
                                        lemma_gather_err_stable(
                                            *b,
                                            cache_view(cache@),
                                            id,
                                            k as int + 1,
                                            b.edges@.len() as int,
                                        );
                                    }
                                    return Err(
                                        DispatchError::MissingUpstreamOutput {
                                            edge_id: b.edges[k].id.clone(),
                                        },
                                    );
                                },
                                Some(v) => {
                                    let target_key = strip_prefix_rep(
                                        b.edges[k].target_handle.as_str(),
                                        "input-",
                                    );
                                    let vv = v.clone();
                                    rec.insert(target_key, vv);
                                },
                            }
                        },
                    }
                },
            }
        }
        k = k + 1;
    }
    Ok(rec)
}

/// The record stored for a script node from the sandbox's returned
/// record: one entry per declared output port, in declaration order; the
/// first declared port absent from the returned record fails.
pub open spec fn select_upto(
    decl: Seq<Seq<char>>,
    out: Map<Seq<char>, SpecValue>,
    n: int,
) -> Result<Map<Seq<char>, SpecValue>, SpecDispatchError>
    decreases n,
{
    if n <= 0 {
        Ok(Map::empty())
    } else {
        match select_upto(decl, out, n - 1) {
            Err(er) => Err(er),
            Ok(m) => if out.contains_key(decl[n - 1]) {
                Ok(m.insert(decl[n - 1], out[decl[n - 1]]))
            } else {
                Err(SpecDispatchError::MissingDeclaredOutput { port: decl[n - 1] })
            },
        }
    }
}

/// The cache entry kept for a script node's declared outputs.
pub open spec fn select_outputs(decl: Seq<Seq<char>>, out: Map<Seq<char>, SpecValue>) -> Result<
    Map<Seq<char>, SpecValue>,
    SpecDispatchError,
> {
    select_upto(decl, out, decl.len() as int)
}

proof fn lemma_select_err_stable(
    decl: Seq<Seq<char>>,
    out: Map<Seq<char>, SpecValue>,
    n0: int,
    n: int,
)
    requires
        0 <= n0 <= n,
        select_upto(decl, out, n0) is Err,
    ensures
        select_upto(decl, out, n) == select_upto(decl, out, n0),
    decreases n - n0,
{
    if n > n0 {
        lemma_select_err_stable(decl, out, n0, n - 1);
    }
}

/// Keep one value per declared output port from the sandbox's record.
fn select_declared(decl: &Vec<String>, out: &Record) -> (r: Result<Record, DispatchError>)
    ensures
        match r {
            Ok(rec) => select_outputs(views_of(decl@), out@) matches Ok(m) && rec@ == m,
            Err(er) => select_outputs(views_of(decl@), out@) matches Err(se) && er@ == se,
        },
{
    let mut rec = Record::new();
    let mut p: usize = 0;
    while p < decl.len()
        invariant
            p <= decl@.len(),
            select_upto(views_of(decl@), out@, p as int) matches Ok(m) && rec@ == m,
        decreases decl@.len() - p,
    {
        match out.get(decl[p].as_str()) {
            None => {
                proof {
                    lemma_select_err_stable(
                        views_of(decl@),
                        out@,
                        p as int + 1,
                        decl@.len() as int,
                    );
                }
                return Err(DispatchError::MissingDeclaredOutput { port: decl[p].clone() });
            },
            Some(v) => {
                let vv = v.clone();
                rec.insert(decl[p].clone(), vv);
            },
        }
        p = p + 1;
    }
    Ok(rec)
}

/// Every frontier entry except node `j`, in order.
pub open spec fn without(f: Seq<usize>, j: usize) -> Seq<usize>
    decreases f.len(),
{
    if f.len() == 0 {
        Seq::empty()
    } else if f.last() == j {
        without(f.drop_last(), j)
    } else {
        without(f.drop_last(), j).push(f.last())
    }
}

proof fn lemma_without_bound(f: Seq<usize>, j: usize, n: nat)
    requires
        forall|i: int| 0 <= i < f.len() ==> (#[trigger] f[i]) < n,
    ensures
        forall|i: int| 0 <= i < without(f, j).len() ==> (#[trigger] without(f, j)[i]) < n,
    decreases f.len(),
{
    if f.len() > 0 {
        lemma_without_bound(f.drop_last(), j, n);
        assert(f[f.len() - 1] < n);
        assert forall|i: int| 0 <= i < without(f, j).len() implies (#[trigger] without(f, j)[i])
            < n by {
            if f.last() != j {
                assert(without(f, j) == without(f.drop_last(), j).push(f.last()));
                if i < without(f.drop_last(), j).len() {
                    assert(without(f.drop_last(), j)[i] < n);
                } else {
                    assert(without(f, j)[i] == f.last());
                }
            }
        }
    }
}

/// Drop every occurrence of node `j` from the frontier.
fn remove_from_frontier(v: &mut Vec<usize>, j: usize)
    ensures
        final(v)@ == without(old(v)@, j),
{
    let mut out: Vec<usize> = Vec::new();
    let mut i: usize = 0;
    while i < v.len()
        invariant
            i <= v@.len(),
            v@ == old(v)@,
            out@ == without(v@.take(i as int), j),
        decreases v@.len() - i,
    {
        let x = v[i];
        proof {
            assert(v@.take(i as int + 1).drop_last() =~= v@.take(i as int));
            assert(v@.take(i as int + 1).last() == v@[i as int]);
        }
        if x != j {
            out.push(x);
        }
        i = i + 1;
    }
    proof {
        assert(v@.take(v@.len() as int) =~= v@);
    }
    *v = out;
}

/// Mathematical model of a `ScriptCall`.
pub struct SpecScriptCall {
    pub node: usize,
    pub script: Seq<char>,
    pub entry: Seq<char>,
    pub input: Map<Seq<char>, SpecValue>,
}

/// Work the engine asks its caller's script sandbox to do: compile the
/// node's source text in a fresh, isolated context, call the entry
/// function with the gathered input record as sole argument, and hand
/// the returned record back through `supply_script_output`.
#[derive(Debug)]
pub struct ScriptCall {
    /// Index of the paused script node in the bound graph.
    pub node: usize,
    /// The node's source text.
    pub script: String,
    /// Name of the entry function to invoke, conventionally `handle`.
    pub entry: String,
    /// The gathered input record to pass to the entry function.
    pub input: Record,
}

impl View for ScriptCall {
    type V = SpecScriptCall;

    open spec fn view(&self) -> SpecScriptCall {
        SpecScriptCall {
            node: self.node,
            script: self.script@,
            entry: self.entry@,
            input: self.input@,
        }
    }
}

/// How a wave call ended: every node of the snapshot dispatched, or the
/// wave paused on a script node whose execution the caller owes.
#[derive(Debug)]
pub enum WaveStatus {
    Completed,
    NeedsScript(ScriptCall),
}

/// The model after one more wave entry is taken (the position advances
/// and nothing is awaited).
pub open spec fn advance_pos(m: RunModel) -> RunModel {
    RunModel { pos: m.pos + 1, awaiting: None, ..m }
}

/// One node's dispatch, at the wave position of `m`. The entry node is
/// never dispatched: its cache entry was pre-seeded. Internal nodes run
/// their built-in behaviour; a script node pauses the wave.
pub open spec fn step_at(b: BoundGraph, m: RunModel) -> SpecStep {
    let j = m.wave[m.pos] as int;
    if j == b.entry {
        SpecStep::Done(advance_pos(m))
    } else {
        match gather_spec(b, m.cache, b.node_id(j)) {
            Err(er) => SpecStep::Failed(er),
            Ok(input) => match b.nodes@[j].kind {
                NodeKind::Script => SpecStep::Paused(
                    RunModel { awaiting: Some(j as usize), ..m },
                    SpecScriptCall {
                        node: j as usize,
                        script: b.nodes@[j].definition.script@,
                        entry: "handle"@,
                        input,
                    },
                ),
                NodeKind::BeginRequest => SpecStep::Done(advance_pos(m)),
                NodeKind::EndRequest => SpecStep::Done(
                    advance_pos(
                        RunModel {
                            finished: Some(j as usize),
                            cache: m.cache.update(j, Some(input)),
                            ..m
                        },
                    ),
                ),
                NodeKind::Breaker => {
                    if !input.contains_key("condition"@) {
                        SpecStep::Failed(
                            SpecDispatchError::BreakerConditionMissing { node_id: b.node_id(j) },
                        )
                    } else {
                        match input["condition"@] {
                            SpecValue::Bool(c) => if c {
                                SpecStep::Done(advance_pos(m))
                            } else {
                                SpecStep::Done(
                                    advance_pos(
                                        RunModel { current: without(m.current, j as usize), ..m },
                                    ),
                                )
                            },
                            _ => SpecStep::Failed(
                                SpecDispatchError::BreakerConditionNotBoolean {
                                    node_id: b.node_id(j),
                                },
                            ),
                        }
                    }
                },
                NodeKind::True => SpecStep::Done(
                    advance_pos(
                        RunModel {
                            cache: m.cache.update(
                                j,
                                Some(
                                    Map::<Seq<char>, SpecValue>::empty().insert(
                                        "out"@,
                                        SpecValue::Bool(true),
                                    ),
                                ),
                            ),
                            ..m
                        },
                    ),
                ),
                NodeKind::False => SpecStep::Done(
                    advance_pos(
                        RunModel {
                            cache: m.cache.update(
                                j,
                                Some(
                                    Map::<Seq<char>, SpecValue>::empty().insert(
                                        "out"@,
                                        SpecValue::Bool(false),
                                    ),
                                ),
                            ),
                            ..m
                        },
                    ),
                ),
                NodeKind::Empty => SpecStep::Done(
                    advance_pos(
                        RunModel {
                            cache: m.cache.update(
                                j,
                                Some(
                                    Map::<Seq<char>, SpecValue>::empty().insert(
                                        "out"@,
                                        SpecValue::Null,
                                    ),
                                ),
                            ),
                            ..m
                        },
                    ),
                ),
            },
        }
    }
}

/// The outcome of one node's dispatch.
pub enum SpecStep {
    /// The node finished; the model advanced.
    Done(RunModel),
    /// A script node paused the wave awaiting its sandbox result.
    Paused(RunModel, SpecScriptCall),
    /// Dispatch failed; the model is unchanged.
    Failed(SpecDispatchError),
}

/// The outcome of running a wave from its current position.
pub enum SpecWave {
    Completed(RunModel),
    NeedsScript(RunModel, SpecScriptCall),
    Failed(RunModel, SpecDispatchError),
}

/// Dispatch wave entries in order from the current position until the
/// snapshot is exhausted, a script node pauses the wave, or a node
/// fails. Reaching the terminal node does not cut the wave short: the
/// remaining entries still run.
pub open spec fn wave_run(b: BoundGraph, m: RunModel) -> SpecWave
    decreases m.wave.len() - m.pos,
{
    if !(0 <= m.pos < m.wave.len()) {
        SpecWave::Completed(m)
    } else {
        match step_at(b, m) {
            SpecStep::Done(m2) => wave_run(b, m2),
            SpecStep::Paused(m2, call) => SpecWave::NeedsScript(m2, call),
            SpecStep::Failed(er) => SpecWave::Failed(m, er),
        }
    }
}

/// The model after the sandbox's record for the awaited script node `j`
/// is accepted: one value per declared output port is stored as the
/// node's cache entry, or the first absent declared port fails.
pub open spec fn apply_output(
    b: BoundGraph,
    m: RunModel,
    j: int,
    out: Map<Seq<char>, SpecValue>,
) -> Result<RunModel, SpecDispatchError> {
    match select_outputs(views_of(b.nodes@[j].definition.outputs@), out) {
        Err(er) => Err(er),
        Ok(stored) => Ok(advance_pos(RunModel { cache: m.cache.update(j, Some(stored)), ..m })),
    }
}

/// Copy the frontier for the wave snapshot.
fn copy_indices(v: &Vec<usize>) -> (r: Vec<usize>)
    ensures
        r@ == v@,
{
    let mut r: Vec<usize> = Vec::new();
    let mut i: usize = 0;
    while i < v.len()
        invariant
            i <= v@.len(),
            r@ == v@.take(i as int),
        decreases v@.len() - i,
    {
        proof {
            assert(v@.take(i as int + 1).drop_last() =~= v@.take(i as int));
            assert(v@.take(i as int + 1).last() == v@[i as int]);
        }
        r.push(v[i]);
        i = i + 1;
    }
    proof {
        assert(v@.take(v@.len() as int) =~= v@);
    }
    r
}

/// Dispatch the wave entry at the current position.
fn step_node(b: &BoundGraph, st: &mut RunState) -> (r: Result<Option<ScriptCall>, DispatchError>)
    requires
        b.ids_unique(),
        b.edges_resolve(),
        old(st)@.inv(*b),
        old(st)@.awaiting is None,
        old(st)@.pos < old(st)@.wave.len(),
    ensures
        final(st)@.inv(*b),
        match r {
            Ok(None) => step_at(*b, old(st)@) == SpecStep::Done(final(st)@),
            Ok(Some(call)) => step_at(*b, old(st)@) == SpecStep::Paused(final(st)@, call@),
            Err(er) => step_at(*b, old(st)@) == SpecStep::Failed(er@) && final(st)@ == old(st)@,
        },
        match r {
            Ok(Some(call)) => final(st)@.awaiting == Some(call@.node),
            _ => true,
        },
{
    let wave_len = st.wave.len();
    let j = st.wave[st.pos];
    proof {
        assert(st.pos < wave_len);
        assert(st@.wave[st@.pos] < b.nodes@.len());
    }
    if j == b.entry {
        st.pos = st.pos + 1;
        return Ok(None);
    }
    match gather_inputs(b, &st.cache, j) {
        Err(er) => {
            return Err(er);
        },
        Ok(in_rec) => {
            match b.nodes[j].kind {
                NodeKind::Script => {
                    st.awaiting = Some(j);
                    let call = ScriptCall {
                        node: j,
                        script: b.nodes[j].definition.script.clone(),
                        entry: "handle".to_owned(),
                        input: in_rec,
                    };
                    Ok(Some(call))
                },
                NodeKind::BeginRequest => {
                    st.pos = st.pos + 1;
                    Ok(None)
                },
                NodeKind::EndRequest => {
                    st.finished = Some(j);
                    let ghost old_cache = cache_view(st.cache@);
                    let ghost stored = in_rec@;
                    st.cache.set(j, Some(in_rec));
                    st.pos = st.pos + 1;
                    proof {
                        assert(cache_view(st.cache@) =~= old_cache.update(
                            j as int,
                            Some(stored),
                        ));
                    }
                    Ok(None)
                },
                NodeKind::Breaker => {
                    match in_rec.get("condition") {
                        None => {
                            return Err(
                                DispatchError::BreakerConditionMissing {
                                    node_id: b.nodes[j].graph_node.id.clone(),
                                },
                            );
                        },
                        Some(Value::Bool(c)) => {
                            if !*c {
                                proof {
                                    lemma_without_bound(st@.current, j, b.nodes@.len());
                                }
                                remove_from_frontier(&mut st.current, j);
                            }
                            st.pos = st.pos + 1;
                            Ok(None)
                        },
                        Some(_) => {
                            return Err(
                                DispatchError::BreakerConditionNotBoolean {
                                    node_id: b.nodes[j].graph_node.id.clone(),
                                },
                            );
                        },
                    }
                },
                NodeKind::True => {
                    let mut rec = Record::new();
                    rec.insert("out".to_owned(), Value::Bool(true));
                    let ghost old_cache = cache_view(st.cache@);
                    let ghost stored = rec@;
                    st.cache.set(j, Some(rec));
                    st.pos = st.pos + 1;
                    proof {
                        assert(cache_view(st.cache@) =~= old_cache.update(
                            j as int,
                            Some(stored),
                        ));
                    }
                    Ok(None)
                },
                NodeKind::False => {
                    let mut rec = Record::new();
                    rec.insert("out".to_owned(), Value::Bool(false));
                    let ghost old_cache = cache_view(st.cache@);
                    let ghost stored = rec@;
                    st.cache.set(j, Some(rec));
                    st.pos = st.pos + 1;
                    proof {
                        assert(cache_view(st.cache@) =~= old_cache.update(
                            j as int,
                            Some(stored),
                        ));
                    }
                    Ok(None)
                },
                NodeKind::Empty => {
                    let mut rec = Record::new();
                    rec.insert("out".to_owned(), Value::Null);
                    let ghost old_cache = cache_view(st.cache@);
                    let ghost stored = rec@;
                    st.cache.set(j, Some(rec));
                    st.pos = st.pos + 1;
                    proof {
                        assert(cache_view(st.cache@) =~= old_cache.update(
                            j as int,
                            Some(stored),
                        ));
                    }
                    Ok(None)
                },
            }
        },
    }
}

/// Dispatch wave entries from the current position until the snapshot is
/// exhausted, a script node pauses the wave, or a node fails.
fn run_wave(b: &BoundGraph, st: &mut RunState) -> (r: Result<WaveStatus, DispatchError>)
    requires
        b.ids_unique(),
        b.edges_resolve(),
        old(st)@.inv(*b),
        old(st)@.awaiting is None,
    ensures
        final(st)@.inv(*b),
        match r {
            Ok(WaveStatus::Completed) => wave_run(*b, old(st)@) == SpecWave::Completed(
                final(st)@,
            ),
            Ok(WaveStatus::NeedsScript(call)) => wave_run(*b, old(st)@) == SpecWave::NeedsScript(
                final(st)@,
                call@,
            ),
            Err(er) => wave_run(*b, old(st)@) == SpecWave::Failed(final(st)@, er@),
        },
        match r {
            Ok(WaveStatus::NeedsScript(call)) => final(st)@.awaiting == Some(call@.node),
            _ => true,
        },
{
    while st.pos < st.wave.len()
        invariant
            b.ids_unique(),
            b.edges_resolve(),
            st@.inv(*b),
            st@.awaiting is None,
            wave_run(*b, st@) == wave_run(*b, old(st)@),
        decreases st@.wave.len() - st@.pos,
    {
        match step_node(b, st) {
            Ok(None) => {},
            Ok(Some(call)) => {
                return Ok(WaveStatus::NeedsScript(call));
            },
            Err(er) => {
                return Err(er);
            },
        }
    }
    Ok(WaveStatus::Completed)
}

/// The model a wave starts from: the live frontier becomes the snapshot
/// and the position rewinds.
pub open spec fn wave_start(m: RunModel) -> RunModel {
    RunModel { wave: m.current, pos: 0, awaiting: None, ..m }
}

/// Execute every node currently in the frontier, in order. On the first
/// failing node the wave aborts with that node's error; cache entries
/// already written by earlier nodes of the wave remain. When dispatch
/// reaches a script node the wave pauses and the returned `ScriptCall`
/// tells the caller what to run; the wave resumes through
/// `supply_script_output`.
pub fn dispatch_wave(b: &BoundGraph, st: &mut RunState) -> (r: Result<WaveStatus, DispatchError>)
    requires
        b.ids_unique(),
        b.edges_resolve(),
        old(st)@.inv(*b),
        old(st)@.awaiting is None,
    ensures
        final(st)@.inv(*b),
        match r {
            Ok(WaveStatus::Completed) => wave_run(*b, wave_start(old(st)@))
                == SpecWave::Completed(final(st)@),
            Ok(WaveStatus::NeedsScript(call)) => wave_run(*b, wave_start(old(st)@))
                == SpecWave::NeedsScript(final(st)@, call@),
            Err(er) => wave_run(*b, wave_start(old(st)@)) == SpecWave::Failed(final(st)@, er@),
        },
        match r {
            Ok(WaveStatus::NeedsScript(call)) => final(st)@.awaiting == Some(call@.node),
            _ => true,
        },
{
    let snapshot = copy_indices(&st.current);
    st.wave = snapshot;
    st.pos = 0;
    proof {
        assert(st@ == wave_start(old(st)@));
    }
    run_wave(b, st)
}

/// Accept the sandbox's returned record for the awaited script node,
/// store one value per declared output port as the node's cache entry,
/// and resume the wave. The first declared port absent from the record
/// fails the dispatch and leaves the state unchanged.
pub fn supply_script_output(b: &BoundGraph, st: &mut RunState, outputs: Record) -> (r: Result<
    WaveStatus,
    DispatchError,
>)
    requires
        b.ids_unique(),
        b.edges_resolve(),
        old(st)@.inv(*b),
        old(st)@.awaiting is Some,
    ensures
        final(st)@.inv(*b),
        match old(st)@.awaiting {
            Some(j) => match apply_output(*b, old(st)@, j as int, outputs@) {
                Err(se) => r matches Err(er) && er@ == se && final(st)@ == old(st)@,
                Ok(m1) => match r {
                    Ok(WaveStatus::Completed) => wave_run(*b, m1) == SpecWave::Completed(
                        final(st)@,
                    ),
                    Ok(WaveStatus::NeedsScript(call)) => wave_run(*b, m1)
                        == SpecWave::NeedsScript(final(st)@, call@),
                    Err(er) => wave_run(*b, m1) == SpecWave::Failed(final(st)@, er@),
                },
            },
            None => false,
        },
        match r {
            Ok(WaveStatus::NeedsScript(call)) => final(st)@.awaiting == Some(call@.node),
            _ => true,
        },
{
    let j = st.awaiting.unwrap();
    let wave_len = st.wave.len();
    proof {
        assert(st.pos < wave_len);
        assert(st@.wave[st@.pos] == j);
    }
    match select_declared(&b.nodes[j].definition.outputs, &outputs) {
        Err(er) => Err(er),
        Ok(stored) => {
            let ghost old_cache = cache_view(st.cache@);
            let ghost stored_map = stored@;
            st.cache.set(j, Some(stored));
            st.awaiting = None;
            st.pos = st.pos + 1;
            proof {
                assert(cache_view(st.cache@) =~= old_cache.update(j as int, Some(stored_map)));
            }
            run_wave(b, st)
        },
    }
}

} // verus!
