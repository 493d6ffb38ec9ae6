use lambda_nodes::bind::{bind, BindError};
use lambda_nodes::dispatch::{dispatch_wave, supply_script_output, ScriptCall, WaveStatus};
use lambda_nodes::graph::{
    BoundGraph, Graph, GraphEdge, GraphNode, GraphNodeData, NodeDefinition,
};
use lambda_nodes::run::{
    extract_result, is_complete, run_stalled, seed_entry, DispatchError, ResultError, RunState,
};
use lambda_nodes::schedule::{advance_wave, initial_wave};
use lambda_nodes::value::{Record, Value};

fn definition(
    id: &str,
    is_internal: bool,
    name: &str,
    script: &str,
    inputs: &[&str],
    outputs: &[&str],
) -> NodeDefinition {
    NodeDefinition {
        id: id.to_string(),
        is_internal,
        name: name.to_string(),
        script: script.to_string(),
        inputs: inputs.iter().map(|s| s.to_string()).collect(),
        outputs: outputs.iter().map(|s| s.to_string()).collect(),
    }
}

fn placed(id: &str, def_id: &str, name: &str) -> GraphNode {
    GraphNode {
        id: id.to_string(),
        node_type: "custom".to_string(),
        data: GraphNodeData {
            id: def_id.to_string(),
            name: name.to_string(),
            inputs: Vec::new(),
            outputs: Vec::new(),
        },
        selected: false,
        dragging: false,
    }
}

fn control(id: &str, source: &str, target: &str) -> GraphEdge {
    GraphEdge {
        source: source.to_string(),
        source_handle: "from-node".to_string(),
        target: target.to_string(),
        target_handle: "to-node".to_string(),
        id: id.to_string(),
    }
}

fn data(id: &str, source: &str, source_port: &str, target: &str, target_port: &str) -> GraphEdge {
    GraphEdge {
        source: source.to_string(),
        source_handle: format!("output-{}", source_port),
        target: target.to_string(),
        target_handle: format!("input-{}", target_port),
        id: id.to_string(),
    }
}

fn begin_def() -> NodeDefinition {
    definition("d-begin", true, "BeginRequest", "", &[], &["data"])
}

fn end_def() -> NodeDefinition {
    definition("d-end", true, "EndRequest", "", &["data"], &[])
}

/// Drives the expected loop: bind happened already; seed, initial wave,
/// then dispatch and advance until complete, running scripts through
/// `sandbox`. Detects an emptied frontier as `GraphNeverTerminates`.
fn drive<F>(b: &BoundGraph, st: &mut RunState, sandbox: F) -> Result<(), DispatchError>
where
    F: Fn(&ScriptCall) -> Result<Record, DispatchError>,
{
    assert!(b.ids_are_unique());
    assert!(b.edges_resolved());
    while !is_complete(st) {
        if run_stalled(st) {
            return Err(DispatchError::GraphNeverTerminates);
        }
        let mut status = dispatch_wave(b, st)?;
        loop {
            match status {
                WaveStatus::Completed => break,
                WaveStatus::NeedsScript(call) => {
                    let out = sandbox(&call)?;
                    status = supply_script_output(b, st, out)?;
                }
            }
        }
        advance_wave(b, st);
    }
    Ok(())
}

fn no_scripts(_call: &ScriptCall) -> Result<Record, DispatchError> {
    Err(DispatchError::ScriptRuntimeError {
        message: "no script was expected in this pipeline".to_string(),
    })
}

fn double_sandbox(call: &ScriptCall) -> Result<Record, DispatchError> {
    assert_eq!(call.entry, "handle");
    let input = match call.input.get("data") {
        Some(Value::Int(i)) => *i,
        other => panic!("unexpected input for Double: {:?}", other),
    };
    let mut out = Record::new();
    out.insert("out".to_string(), Value::Int(input * 2));
    Ok(out)
}

fn double_graph() -> (Graph, Vec<NodeDefinition>) {
    let defs = vec![
        begin_def(),
        end_def(),
        definition(
            "d-double",
            false,
            "Double",
            "function handle(input) { return { out: input.data * 2 }; }",
            &["data"],
            &["out"],
        ),
    ];
    let graph = Graph {
        nodes: vec![
            placed("n-begin", "d-begin", "BeginRequest"),
            placed("n-double", "d-double", "Double"),
            placed("n-end", "d-end", "EndRequest"),
        ],
        edges: vec![
            control("c1", "n-begin", "n-double"),
            control("c2", "n-double", "n-end"),
            data("d1", "n-begin", "data", "n-double", "data"),
            data("d2", "n-double", "out", "n-end", "data"),
        ],
    };
    (graph, defs)
}

#[test]
fn double_pipeline_yields_doubled_payload() {
    let (graph, defs) = double_graph();
    let bound = bind(graph, &defs).expect("graph should bind");
    let mut st = seed_entry(&bound, Value::Int(5));
    initial_wave(&bound, &mut st);
    drive(&bound, &mut st, double_sandbox).expect("run should succeed");
    assert!(is_complete(&st));
    let result = extract_result(&st).expect("result should decode");
    assert_eq!(result, Value::Int(10));
}

#[test]
fn round_trip_returns_seeded_payload_exactly() {
    let defs = vec![begin_def(), end_def()];
    let graph = Graph {
        nodes: vec![
            placed("n-begin", "d-begin", "BeginRequest"),
            placed("n-end", "d-end", "EndRequest"),
        ],
        edges: vec![
            control("c1", "n-begin", "n-end"),
            data("d1", "n-begin", "data", "n-end", "data"),
        ],
    };
    let bound = bind(graph, &defs).expect("graph should bind");
    let payload = Value::Json("{\"user\":\"ada\",\"n\":3}".to_string());
    let mut st = seed_entry(&bound, payload.clone());
    initial_wave(&bound, &mut st);
    drive(&bound, &mut st, no_scripts).expect("run should succeed");
    assert_eq!(extract_result(&st).unwrap(), payload);
}

#[test]
fn literal_nodes_write_fixed_outputs_despite_wired_inputs() {
    let defs = vec![
        begin_def(),
        end_def(),
        definition("d-true", true, "True", "", &["x"], &["out"]),
        definition("d-false", true, "False", "", &["x"], &["out"]),
        definition("d-empty", true, "Empty", "", &["x"], &["out"]),
    ];
    let graph = Graph {
        nodes: vec![
            placed("n-begin", "d-begin", "BeginRequest"),
            placed("n-true", "d-true", "True"),
            placed("n-false", "d-false", "False"),
            placed("n-empty", "d-empty", "Empty"),
            placed("n-end", "d-end", "EndRequest"),
        ],
        edges: vec![
            control("c1", "n-begin", "n-true"),
            control("c2", "n-true", "n-false"),
            control("c3", "n-false", "n-empty"),
            control("c4", "n-empty", "n-end"),
            // Wired inputs that the literal nodes must ignore.
            data("d1", "n-begin", "data", "n-true", "x"),
            data("d2", "n-true", "out", "n-false", "x"),
            data("d3", "n-false", "out", "n-empty", "x"),
            data("d4", "n-empty", "out", "n-end", "data"),
        ],
    };
    let bound = bind(graph, &defs).expect("graph should bind");
    let mut st = seed_entry(&bound, Value::Int(41));
    initial_wave(&bound, &mut st);
    drive(&bound, &mut st, no_scripts).expect("run should succeed");

    let t = bound.find_node("n-true").unwrap();
    let f = bound.find_node("n-false").unwrap();
    let e = bound.find_node("n-empty").unwrap();
    assert_eq!(st.cache[t].as_ref().unwrap().get("out"), Some(&Value::Bool(true)));
    assert_eq!(st.cache[f].as_ref().unwrap().get("out"), Some(&Value::Bool(false)));
    assert_eq!(st.cache[e].as_ref().unwrap().get("out"), Some(&Value::Null));
    assert_eq!(extract_result(&st).unwrap(), Value::Null);
}

fn breaker_defs() -> Vec<NodeDefinition> {
    vec![
        begin_def(),
        end_def(),
        definition("d-breaker", true, "Breaker", "", &["condition"], &[]),
        definition("d-true", true, "True", "", &[], &["out"]),
    ]
}

#[test]
fn breaker_false_prunes_only_its_own_path() {
    // begin fans out to a gated path (breaker -> gated) and a free path
    // (free). The breaker's condition gathers false, so only the gated
    // node disappears from the following wave.
    let defs = breaker_defs();
    let graph = Graph {
        nodes: vec![
            placed("n-begin", "d-begin", "BeginRequest"),
            placed("n-breaker", "d-breaker", "Breaker"),
            placed("n-gated", "d-true", "True"),
            placed("n-free", "d-true", "True"),
            placed("n-end", "d-end", "EndRequest"),
        ],
        edges: vec![
            control("c1", "n-begin", "n-breaker"),
            control("c2", "n-begin", "n-free"),
            control("c3", "n-breaker", "n-gated"),
            control("c4", "n-free", "n-end"),
            data("d1", "n-begin", "data", "n-breaker", "condition"),
            data("d2", "n-free", "out", "n-end", "data"),
        ],
    };
    let bound = bind(graph, &defs).expect("graph should bind");
    let mut st = seed_entry(&bound, Value::Bool(false));
    initial_wave(&bound, &mut st);

    // Wave 1: just the entry node.
    dispatch_wave(&bound, &mut st).expect("wave 1");
    advance_wave(&bound, &mut st);
    let breaker = bound.find_node("n-breaker").unwrap();
    let free = bound.find_node("n-free").unwrap();
    assert_eq!(st.current, vec![breaker, free]);

    // Wave 2: the breaker removes itself; the free path is untouched.
    dispatch_wave(&bound, &mut st).expect("wave 2");
    assert_eq!(st.current, vec![free]);
    advance_wave(&bound, &mut st);
    let end = bound.find_node("n-end").unwrap();
    assert_eq!(st.current, vec![end]);

    drive(&bound, &mut st, no_scripts).expect("rest of the run");
    assert!(is_complete(&st));
    let gated = bound.find_node("n-gated").unwrap();
    assert!(st.cache[gated].is_none());
    assert!(st.cache[breaker].is_none());
    assert_eq!(extract_result(&st).unwrap(), Value::Bool(true));
}

#[test]
fn breaker_true_leaves_frontier_unchanged() {
    let defs = breaker_defs();
    let graph = Graph {
        nodes: vec![
            placed("n-begin", "d-begin", "BeginRequest"),
            placed("n-breaker", "d-breaker", "Breaker"),
            placed("n-gated", "d-true", "True"),
            placed("n-end", "d-end", "EndRequest"),
        ],
        edges: vec![
            control("c1", "n-begin", "n-breaker"),
            control("c2", "n-breaker", "n-gated"),
            control("c3", "n-gated", "n-end"),
            data("d1", "n-begin", "data", "n-breaker", "condition"),
            data("d2", "n-gated", "out", "n-end", "data"),
        ],
    };
    let bound = bind(graph, &defs).expect("graph should bind");
    let mut st = seed_entry(&bound, Value::Bool(true));
    initial_wave(&bound, &mut st);
    drive(&bound, &mut st, no_scripts).expect("run should succeed");
    assert!(is_complete(&st));
    let gated = bound.find_node("n-gated").unwrap();
    assert_eq!(st.cache[gated].as_ref().unwrap().get("out"), Some(&Value::Bool(true)));
    assert_eq!(extract_result(&st).unwrap(), Value::Bool(true));
}

#[test]
fn breaker_false_with_no_alternate_path_stalls_the_run() {
    let defs = breaker_defs();
    let graph = Graph {
        nodes: vec![
            placed("n-begin", "d-begin", "BeginRequest"),
            placed("n-breaker", "d-breaker", "Breaker"),
            placed("n-end", "d-end", "EndRequest"),
        ],
        edges: vec![
            control("c1", "n-begin", "n-breaker"),
            control("c2", "n-breaker", "n-end"),
            data("d1", "n-begin", "data", "n-breaker", "condition"),
            data("d2", "n-begin", "data", "n-end", "data"),
        ],
    };
    let bound = bind(graph, &defs).expect("graph should bind");
    let mut st = seed_entry(&bound, Value::Bool(false));
    initial_wave(&bound, &mut st);
    let err = drive(&bound, &mut st, no_scripts).expect_err("run must stall");
    assert!(matches!(err, DispatchError::GraphNeverTerminates));
    assert!(!is_complete(&st));
    assert!(run_stalled(&st));
    assert!(err.message().len() > 0);
}

#[test]
fn missing_node_reference_fails_bind_before_anything_runs() {
    let defs = vec![begin_def(), end_def()];
    let graph = Graph {
        nodes: vec![
            placed("n-begin", "d-begin", "BeginRequest"),
            placed("n-ghost", "d-missing", "Ghost"),
            placed("n-end", "d-end", "EndRequest"),
        ],
        edges: vec![control("c1", "n-begin", "n-end")],
    };
    let err = bind(graph, &defs).expect_err("bind must fail");
    match &err {
        BindError::UnresolvedNodeReference { node_ref } => assert_eq!(node_ref, "d-missing"),
        other => panic!("wrong bind error: {:?}", other),
    }
    assert!(err.message().len() > 0);
}

#[test]
fn unknown_internal_name_fails_bind() {
    let defs = vec![
        begin_def(),
        end_def(),
        definition("d-odd", true, "Frobnicate", "", &[], &[]),
    ];
    let graph = Graph {
        nodes: vec![
            placed("n-begin", "d-begin", "BeginRequest"),
            placed("n-odd", "d-odd", "Frobnicate"),
            placed("n-end", "d-end", "EndRequest"),
        ],
        edges: vec![control("c1", "n-begin", "n-end")],
    };
    let err = bind(graph, &defs).expect_err("bind must fail");
    match &err {
        BindError::UnknownInternalNode { name } => assert_eq!(name, "Frobnicate"),
        other => panic!("wrong bind error: {:?}", other),
    }
}

#[test]
fn graph_without_terminal_fails_bind() {
    let defs = vec![begin_def(), end_def()];
    let graph = Graph {
        nodes: vec![placed("n-begin", "d-begin", "BeginRequest")],
        edges: vec![],
    };
    let err = bind(graph, &defs).expect_err("bind must fail");
    assert!(matches!(err, BindError::MissingEntryOrTerminal));
}

#[test]
fn graph_with_two_entries_fails_bind() {
    let defs = vec![begin_def(), end_def()];
    let graph = Graph {
        nodes: vec![
            placed("n-begin", "d-begin", "BeginRequest"),
            placed("n-begin2", "d-begin", "BeginRequest"),
            placed("n-end", "d-end", "EndRequest"),
        ],
        edges: vec![],
    };
    let err = bind(graph, &defs).expect_err("bind must fail");
    assert!(matches!(err, BindError::MissingEntryOrTerminal));
}

#[test]
fn script_without_entry_function_fails_with_runtime_error() {
    let (graph, defs) = double_graph();
    let bound = bind(graph, &defs).expect("graph should bind");
    let mut st = seed_entry(&bound, Value::Int(5));
    initial_wave(&bound, &mut st);
    // The sandbox finds no `handle` function in the script's context.
    let err = drive(&bound, &mut st, |call| {
        Err(DispatchError::ScriptRuntimeError {
            message: format!("entry function {} is not defined", call.entry),
        })
    })
    .expect_err("run must fail");
    match &err {
        DispatchError::ScriptRuntimeError { message } => assert!(!message.is_empty()),
        other => panic!("wrong dispatch error: {:?}", other),
    }
    assert!(err.message().len() > 0);
    assert!(!is_complete(&st));
}

#[test]
fn misrouted_input_wiring_fails_with_missing_upstream_output() {
    // Same shape as the doubling pipeline, but Double's input is wired
    // to an output port the entry node never produces.
    let defs = vec![
        begin_def(),
        end_def(),
        definition(
            "d-double",
            false,
            "Double",
            "function handle(input) { return { out: input.data * 2 }; }",
            &["data"],
            &["out"],
        ),
    ];
    let graph = Graph {
        nodes: vec![
            placed("n-begin", "d-begin", "BeginRequest"),
            placed("n-double", "d-double", "Double"),
            placed("n-end", "d-end", "EndRequest"),
        ],
        edges: vec![
            control("c1", "n-begin", "n-double"),
            control("c2", "n-double", "n-end"),
            data("d1", "n-begin", "result", "n-double", "data"),
            data("d2", "n-double", "out", "n-end", "data"),
        ],
    };
    let bound = bind(graph, &defs).expect("graph should bind");
    let mut st = seed_entry(&bound, Value::Int(5));
    initial_wave(&bound, &mut st);
    let err = drive(&bound, &mut st, double_sandbox).expect_err("run must fail");
    match &err {
        DispatchError::MissingUpstreamOutput { edge_id } => assert_eq!(edge_id, "d1"),
        other => panic!("wrong dispatch error: {:?}", other),
    }
    assert!(!is_complete(&st));
}

#[test]
fn script_result_missing_declared_output_fails() {
    let (graph, defs) = double_graph();
    let bound = bind(graph, &defs).expect("graph should bind");
    let mut st = seed_entry(&bound, Value::Int(5));
    initial_wave(&bound, &mut st);
    let err = drive(&bound, &mut st, |_call| Ok(Record::new())).expect_err("run must fail");
    match &err {
        DispatchError::MissingDeclaredOutput { port } => assert_eq!(port, "out"),
        other => panic!("wrong dispatch error: {:?}", other),
    }
}

#[test]
fn breaker_without_condition_wiring_fails() {
    let defs = breaker_defs();
    let graph = Graph {
        nodes: vec![
            placed("n-begin", "d-begin", "BeginRequest"),
            placed("n-breaker", "d-breaker", "Breaker"),
            placed("n-end", "d-end", "EndRequest"),
        ],
        edges: vec![
            control("c1", "n-begin", "n-breaker"),
            control("c2", "n-breaker", "n-end"),
        ],
    };
    let bound = bind(graph, &defs).expect("graph should bind");
    let mut st = seed_entry(&bound, Value::Bool(false));
    initial_wave(&bound, &mut st);
    let err = drive(&bound, &mut st, no_scripts).expect_err("run must fail");
    match &err {
        DispatchError::BreakerConditionMissing { node_id } => assert_eq!(node_id, "n-breaker"),
        other => panic!("wrong dispatch error: {:?}", other),
    }
}

#[test]
fn breaker_with_non_boolean_condition_fails() {
    let defs = breaker_defs();
    let graph = Graph {
        nodes: vec![
            placed("n-begin", "d-begin", "BeginRequest"),
            placed("n-breaker", "d-breaker", "Breaker"),
            placed("n-end", "d-end", "EndRequest"),
        ],
        edges: vec![
            control("c1", "n-begin", "n-breaker"),
            control("c2", "n-breaker", "n-end"),
            data("d1", "n-begin", "data", "n-breaker", "condition"),
        ],
    };
    let bound = bind(graph, &defs).expect("graph should bind");
    let mut st = seed_entry(&bound, Value::Int(7));
    initial_wave(&bound, &mut st);
    let err = drive(&bound, &mut st, no_scripts).expect_err("run must fail");
    assert!(matches!(err, DispatchError::BreakerConditionNotBoolean { .. }));
}

#[test]
fn terminal_without_data_input_fails_result_decode() {
    let defs = vec![begin_def(), end_def()];
    let graph = Graph {
        nodes: vec![
            placed("n-begin", "d-begin", "BeginRequest"),
            placed("n-end", "d-end", "EndRequest"),
        ],
        edges: vec![control("c1", "n-begin", "n-end")],
    };
    let bound = bind(graph, &defs).expect("graph should bind");
    let mut st = seed_entry(&bound, Value::Int(1));
    initial_wave(&bound, &mut st);
    drive(&bound, &mut st, no_scripts).expect("run completes");
    assert!(is_complete(&st));
    let err = extract_result(&st).expect_err("result must fail to decode");
    assert!(matches!(err, ResultError::ResultDecodeError));
}

#[test]
fn diamond_fanin_dispatches_shared_target_twice() {
    // Two frontier nodes both point a control edge at the same script
    // node: it appears twice in the next wave and runs twice, which is
    // the documented, deliberately preserved behaviour.
    let defs = vec![
        begin_def(),
        end_def(),
        definition("d-true", true, "True", "", &[], &["out"]),
        definition(
            "d-count",
            false,
            "Count",
            "function handle(input) { return { out: true }; }",
            &[],
            &["out"],
        ),
    ];
    let graph = Graph {
        nodes: vec![
            placed("n-begin", "d-begin", "BeginRequest"),
            placed("n-left", "d-true", "True"),
            placed("n-right", "d-true", "True"),
            placed("n-shared", "d-count", "Count"),
            placed("n-end", "d-end", "EndRequest"),
        ],
        edges: vec![
            control("c1", "n-begin", "n-left"),
            control("c2", "n-begin", "n-right"),
            control("c3", "n-left", "n-shared"),
            control("c4", "n-right", "n-shared"),
            control("c5", "n-shared", "n-end"),
            data("d1", "n-shared", "out", "n-end", "data"),
        ],
    };
    let bound = bind(graph, &defs).expect("graph should bind");
    let mut st = seed_entry(&bound, Value::Null);
    initial_wave(&bound, &mut st);

    // Walk to the wave that holds the shared node.
    dispatch_wave(&bound, &mut st).expect("wave 1");
    advance_wave(&bound, &mut st);
    dispatch_wave(&bound, &mut st).expect("wave 2");
    advance_wave(&bound, &mut st);
    let shared = bound.find_node("n-shared").unwrap();
    assert_eq!(st.current, vec![shared, shared]);

    let mut runs = 0;
    let mut status = dispatch_wave(&bound, &mut st).expect("wave 3");
    loop {
        match status {
            WaveStatus::Completed => break,
            WaveStatus::NeedsScript(_call) => {
                runs += 1;
                let mut out = Record::new();
                out.insert("out".to_string(), Value::Bool(true));
                status = supply_script_output(&bound, &mut st, out).expect("supply");
            }
        }
    }
    assert_eq!(runs, 2);
    advance_wave(&bound, &mut st);

    drive(&bound, &mut st, no_scripts).expect("rest of the run");
    // The shared node fed the terminal twice over; the end node also
    // appears twice in its wave, and the run still completes cleanly.
    assert_eq!(extract_result(&st).unwrap(), Value::Bool(true));
}
