//! The per-run state threaded through the engine: the append-only data
//! cache (one slot per bound node), the live frontier of nodes eligible to
//! run, the snapshot of the wave being executed, and the terminal flag.
//!
//! One run state serves exactly one pipeline run; nothing here is shared
//! between runs.

use vstd::prelude::*;
use crate::graph::{BoundGraph, NodeKind};
use crate::value::{Record, SpecValue, Value};

verus! {

/// Mathematical model of a `DispatchError`.
pub enum SpecDispatchError {
    MissingUpstreamOutput { edge_id: Seq<char> },
    BreakerConditionMissing { node_id: Seq<char> },
    BreakerConditionNotBoolean { node_id: Seq<char> },
    MissingDeclaredOutput { port: Seq<char> },
    ScriptCompileError { message: Seq<char> },
    ScriptRuntimeError { message: Seq<char> },
    GraphNeverTerminates,
}

/// Why a run failed during dispatch. Any of these is fatal to the run.
#[derive(Debug)]
pub enum DispatchError {
    /// A data edge's source node has not produced the named output yet:
    /// a scheduling-order mistake in the graph, surfaced rather than
    /// silently defaulted.
    MissingUpstreamOutput { edge_id: String },
    /// A `Breaker` node has no `condition` input wired.
    BreakerConditionMissing { node_id: String },
    /// A `Breaker` node's `condition` input is not a boolean.
    BreakerConditionNotBoolean { node_id: String },
    /// A script's returned record lacks a declared output port.
    MissingDeclaredOutput { port: String },
    /// The script sandbox could not compile a node's source text.
    ScriptCompileError { message: String },
    /// The script sandbox failed running a node's entry function,
    /// including the entry function being absent.
    ScriptRuntimeError { message: String },
    /// The frontier emptied without the terminal node ever running; the
    /// driving loop reports this instead of looping forever.
    GraphNeverTerminates,
}

impl View for DispatchError {
    type V = SpecDispatchError;

    open spec fn view(&self) -> SpecDispatchError {
        match self {
            DispatchError::MissingUpstreamOutput { edge_id } => {
                SpecDispatchError::MissingUpstreamOutput { edge_id: edge_id@ }
            },
            DispatchError::BreakerConditionMissing { node_id } => {
                SpecDispatchError::BreakerConditionMissing { node_id: node_id@ }
            },
            DispatchError::BreakerConditionNotBoolean { node_id } => {
                SpecDispatchError::BreakerConditionNotBoolean { node_id: node_id@ }
            },
            DispatchError::MissingDeclaredOutput { port } => {
                SpecDispatchError::MissingDeclaredOutput { port: port@ }
            },
            DispatchError::ScriptCompileError { message } => {
                SpecDispatchError::ScriptCompileError { message: message@ }
            },
            DispatchError::ScriptRuntimeError { message } => {
                SpecDispatchError::ScriptRuntimeError { message: message@ }
            },
            DispatchError::GraphNeverTerminates => SpecDispatchError::GraphNeverTerminates,
        }
    }
}

impl DispatchError {
    /// The text `message` returns for each failure.
    pub open spec fn spec_message(&self) -> Seq<char> {
        match self {
            DispatchError::MissingUpstreamOutput { edge_id } => {
                "missing upstream output for edge: "@ + edge_id@
            },
            DispatchError::BreakerConditionMissing { node_id } => {
                "breaker has no condition input: "@ + node_id@
            },
            DispatchError::BreakerConditionNotBoolean { node_id } => {
                "breaker condition is not a boolean: "@ + node_id@
            },
            DispatchError::MissingDeclaredOutput { port } => {
                "script result lacks declared output: "@ + port@
            },
            DispatchError::ScriptCompileError { message } => {
                "script failed to compile: "@ + message@
            },
            DispatchError::ScriptRuntimeError { message } => "script failed to run: "@ + message@,
            DispatchError::GraphNeverTerminates => {
                "frontier emptied before reaching the terminal node"@
            },
        }
    }

    /// A human-readable, never empty description of the failure.
    pub fn message(&self) -> (r: String)
        ensures
            r@ == self.spec_message(),
            r@.len() > 0,
    {
        let r: String = match self {
            DispatchError::MissingUpstreamOutput { edge_id } => {
                let mut m: String = "missing upstream output for edge: ".to_owned();
                m.append(edge_id.as_str());
                m
            },
            DispatchError::BreakerConditionMissing { node_id } => {
                let mut m: String = "breaker has no condition input: ".to_owned();
                m.append(node_id.as_str());
                m
            },
            DispatchError::BreakerConditionNotBoolean { node_id } => {
                let mut m: String = "breaker condition is not a boolean: ".to_owned();
                m.append(node_id.as_str());
                m
            },
            DispatchError::MissingDeclaredOutput { port } => {
                let mut m: String = "script result lacks declared output: ".to_owned();
                m.append(port.as_str());
                m
            },
            DispatchError::ScriptCompileError { message } => {
                let mut m: String = "script failed to compile: ".to_owned();
                m.append(message.as_str());
                m
            },
            DispatchError::ScriptRuntimeError { message } => {
                let mut m: String = "script failed to run: ".to_owned();
                m.append(message.as_str());
                m
            },
            DispatchError::GraphNeverTerminates => {
                "frontier emptied before reaching the terminal node".to_owned()
            },
        };
        proof {
            reveal_strlit("missing upstream output for edge: ");
            reveal_strlit("breaker has no condition input: ");
            reveal_strlit("breaker condition is not a boolean: ");
            reveal_strlit("script result lacks declared output: ");
            reveal_strlit("script failed to compile: ");
            reveal_strlit("script failed to run: ");
            reveal_strlit("frontier emptied before reaching the terminal node");
        }
        r
    }
}

/// Why the run's result could not be read back.
#[derive(Debug)]
pub enum ResultError {
    /// The terminal node's cache entry is absent or lacks a `data` key.
    ResultDecodeError,
}

/// The cached records, one optional slot per bound node, as maps.
pub open spec fn cache_view(c: Seq<Option<Record>>) -> Seq<
    Option<Map<Seq<char>, SpecValue>>,
> {
    c.map_values(
        |o: Option<Record>|
            match o {
                Option::Some(r) => Option::Some(r@),
                Option::None => Option::None,
            },
    )
}

/// Mathematical model of a `RunState`.
pub struct RunModel {
    pub cache: Seq<Option<Map<Seq<char>, SpecValue>>>,
    pub current: Seq<usize>,
    pub wave: Seq<usize>,
    pub pos: int,
    pub awaiting: Option<usize>,
    pub finished: Option<usize>,
}

impl RunModel {
    /// Internal consistency against the bound graph the run executes.
    pub open spec fn inv(&self, b: BoundGraph) -> bool {
        &&& self.cache.len() == b.nodes@.len()
        &&& forall|i: int|
            0 <= i < self.current.len() ==> (#[trigger] self.current[i]) < b.nodes@.len()
        &&& forall|i: int| 0 <= i < self.wave.len() ==> (#[trigger] self.wave[i]) < b.nodes@.len()
        &&& 0 <= self.pos <= self.wave.len()
        &&& (self.awaiting matches Some(j) ==> self.pos < self.wave.len() && self.wave[self.pos]
            == j && b.nodes@[j as int].kind == NodeKind::Script)
        &&& (self.finished matches Some(t) ==> t < b.nodes@.len() && b.nodes@[t as int].kind
            == NodeKind::EndRequest)
    }
}

/// The state of one pipeline run: the data cache, the live frontier
/// (`current`), the snapshot of the wave being dispatched (`wave`, with
/// `pos` the next entry to run), the script call awaited from the
/// sandbox, if any, and the terminal node once reached.
pub struct RunState {
    pub cache: Vec<Option<Record>>,
    pub current: Vec<usize>,
    pub wave: Vec<usize>,
    pub pos: usize,
    pub awaiting: Option<usize>,
    pub finished: Option<usize>,
}

impl View for RunState {
    type V = RunModel;

    open spec fn view(&self) -> RunModel {
        RunModel {
            cache: cache_view(self.cache@),
            current: self.current@,
            wave: self.wave@,
            pos: self.pos as int,
            awaiting: self.awaiting,
            finished: self.finished,
        }
    }
}

/// Start a run: every cache slot is empty except the entry node's, which
/// is seeded with the request payload under the key `data`.
pub fn seed_entry(b: &BoundGraph, payload: Value) -> (st: RunState)
    requires
        b.entry < b.nodes@.len(),
    ensures
        st@.inv(*b),
        st@.cache.len() == b.nodes@.len(),
        st@.cache[b.entry as int] == Some(
            Map::<Seq<char>, SpecValue>::empty().insert("data"@, payload@),
        ),
        forall|i: int| 0 <= i < b.nodes@.len() && i != b.entry ==> st@.cache[i] is None,
        st@.current.len() == 0,
        st@.wave.len() == 0,
        st@.pos == 0,
        st@.awaiting is None,
        st@.finished is None,
{
    let n = b.nodes.len();
    let mut cache: Vec<Option<Record>> = Vec::new();
    let mut i: usize = 0;
    while i < n
        invariant
            i <= n,
            cache@.len() == i,
            forall|l: int| 0 <= l < i ==> (#[trigger] cache@[l]) is None,
        decreases n - i,
    {
        cache.push(None);
        i = i + 1;
    }
    let mut rec = Record::new();
    rec.insert("data".to_owned(), payload);
    cache.set(b.entry, Some(rec));
    RunState {
        cache,
        current: Vec::new(),
        wave: Vec::new(),
        pos: 0,
        awaiting: None,
        finished: None,
    }
}

/// Whether the terminal flag is set: the run reached `EndRequest`.
pub fn is_complete(st: &RunState) -> (r: bool)
    ensures
        r == (st@.finished is Some),
{
    st.finished.is_some()
}

/// Whether the run can make no more progress without having reached the
/// terminal node: the driving loop should report `GraphNeverTerminates`.
pub fn run_stalled(st: &RunState) -> (r: bool)
    ensures
        r == (st@.finished is None && st@.current.len() == 0),
{
    st.finished.is_none() && st.current.len() == 0
}

/// Read the run's result: the value under the key `data` in the terminal
/// node's cache entry. Asking before the run completed is a caller error.
pub fn extract_result(st: &RunState) -> (r: Result<Value, ResultError>)
    requires
        st@.finished is Some,
        st@.finished matches Some(t) ==> t < st@.cache.len(),
    ensures
        match st@.finished {
            Some(t) => match st@.cache[t as int] {
                Some(rec) => if rec.contains_key("data"@) {
                    r matches Ok(v) && v@ == rec["data"@]
                } else {
                    r matches Err(ResultError::ResultDecodeError)
                },
                None => r matches Err(ResultError::ResultDecodeError),
            },
            None => false,
        },
{
    let t = st.finished.unwrap();
    match &st.cache[t] {
        Some(rec) => match rec.get("data") {
            Some(v) => Ok(v.clone()),
            None => Err(ResultError::ResultDecodeError),
        },
        None => Err(ResultError::ResultDecodeError),
    }
}

} // verus!
