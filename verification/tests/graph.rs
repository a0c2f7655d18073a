use moirai::drive::{command_line, subprocess_step, Drive, DriveAction, DriveEvent, ProcessEvent};
use moirai::engine::EngineEvent;
use moirai::graph::{executor_for, line_effect, read_output_line, Graph, LineEffect, Status};
use moirai::json::{JsonMap, JsonNumber, JsonValue};
use moirai::plugin_manager::{PluginManager, PluginManifest, RuntimeSpec};
use moirai::specs::{EdgeDefinition, NodeMetadata, NodeSpec};
use moirai::strmap::StrMap;
use moirai::workflow_validator::{NodeInstance, WorkflowDefinition};

fn gr_spec(fqdn: &str, class: Option<&str>) -> NodeSpec {
    NodeSpec {
        node_type: "primitive".to_string(),
        node_fqdn: fqdn.to_string(),
        plugin_version: "1.0.0".to_string(),
        node_version: "1.0.0".to_string(),
        class: class.map(|c| c.to_string()),
        inputs: vec![],
        outputs: vec![],
        metadata: NodeMetadata {
            display_name: fqdn.to_uppercase(),
            description: format!("Test node {}", fqdn),
            author: None,
            created: None,
            tags: None,
            icon: None,
        },
    }
}

fn gr_manifest(fqdn: &str, nodes: Vec<&str>) -> PluginManifest {
    PluginManifest {
        plugin_fqdn: fqdn.to_string(),
        version: "1.0.0".to_string(),
        author: None,
        created: None,
        metadata: None,
        types: vec![],
        nodes: nodes.iter().map(|n| format!("nodes/{}.json", n)).collect(),
        executor: None,
        runtime: None,
    }
}

fn gr_plugins() -> PluginManager {
    let mut pm = PluginManager::new();
    pm.add_plugin(
        "mysys",
        gr_manifest("mysys", vec!["n1", "n2"]),
        "/plugins/mysys".to_string(),
        vec![],
        vec!["nodes/n1.json".to_string(), "nodes/n2.json".to_string()],
        vec![],
        vec![gr_spec("mysys:n1", None), gr_spec("mysys:n2", None)],
    )
    .unwrap();
    pm.add_plugin(
        "sys",
        gr_manifest("sys", vec!["start"]),
        "/plugins/sys".to_string(),
        vec![],
        vec!["nodes/start.json".to_string()],
        vec![],
        vec![gr_spec("sys:start", None)],
    )
    .unwrap();
    pm
}

fn gr_inst(id: &str, fqdn: &str, value: Option<JsonValue>) -> NodeInstance {
    NodeInstance { id: id.to_string(), node_fqdn: fqdn.to_string(), inputs: None, value }
}

fn gr_edge(from: &str, out: &str, to: &str, input: &str) -> EdgeDefinition {
    EdgeDefinition { from_node: from.to_string(), from_output: out.to_string(), to_node: to.to_string(), to_input: input.to_string() }
}

#[test]
fn graph_from_definition_basic_control_flow() {
    let pm = gr_plugins();
    let def = WorkflowDefinition {
        version: "1.0".into(),
        name: "wf".into(),
        metadata: None,
        nodes: vec![
            gr_inst("n1", "mysys:n1", Some(JsonValue::String("hello".to_string()))),
            gr_inst("n2", "mysys:n2", None),
        ],
        edges: vec![gr_edge("n1", "__success__", "n2", "__input__")],
    };

    let graph = Graph::from_definition(&def, &pm).expect("graph build failed");

    assert_eq!(graph.nodes.len(), 2);
    assert!(graph.nodes.contains_key("n1"));
    assert!(graph.nodes.contains_key("n2"));

    assert!(graph.data_edges.is_empty());

    assert_eq!(graph.control_target("n1", "__success__").unwrap(), "n2");
}

fn gr_outputs(pairs: Vec<(&str, JsonValue)>) -> JsonMap {
    let mut m: JsonMap = StrMap::new();
    for (k, v) in pairs {
        m.insert(k.to_string(), v);
    }
    m
}

/// Drives to the end, answering cancellation checks with `cancel` and runs
/// with `run`; gives the final status, the announcements and the nodes run.
fn gr_drive(
    g: &mut Graph,
    d: &mut Drive,
    cancel: bool,
    run: &dyn Fn(&str) -> (Status, JsonMap),
) -> (Status, Vec<EngineEvent>, Vec<String>) {
    let mut ev = DriveEvent::Proceed;
    let mut all = Vec::new();
    let mut ran = Vec::new();
    for _ in 0..1000 {
        let (act, evs) = g.drive_step(d, ev);
        all.extend(evs);
        ev = match act {
            DriveAction::Continue => DriveEvent::Proceed,
            DriveAction::CheckCancel => DriveEvent::CancelChecked(cancel),
            DriveAction::Run { node_id } => {
                let (status, outputs) = run(node_id.as_str());
                ran.push(node_id);
                DriveEvent::Ran { status, outputs }
            }
            DriveAction::Finished(s) => return (s, all, ran),
        };
    }
    panic!("the drive did not finish");
}

fn gr_data_flow_graph() -> Graph {
    let pm = gr_plugins();
    let def = WorkflowDefinition {
        version: "1.0".into(),
        name: "wf".into(),
        metadata: None,
        nodes: vec![gr_inst("s", "sys:start", None), gr_inst("n1", "mysys:n1", None), gr_inst("n2", "mysys:n2", None)],
        edges: vec![gr_edge("s", "__failure__", "n2", "__input__"), gr_edge("n1", "x", "n2", "in")],
    };
    Graph::from_definition(&def, &pm).unwrap()
}

#[test]
fn drive_runs_upstream_nodes_first_and_copies_their_outputs() {
    let mut g = gr_data_flow_graph();
    let (d, evs) = g.begin_execute("wf-1".to_string());
    assert!(evs.is_empty());
    let mut d = d.unwrap();
    let run = |id: &str| -> (Status, JsonMap) {
        match id {
            "s" => (Status::Failed, StrMap::new()),
            "n1" => (Status::Success, gr_outputs(vec![("x", JsonValue::Number(JsonNumber::PosInt(5)))])),
            _ => (Status::Success, StrMap::new()),
        }
    };
    let (status, events, ran) = gr_drive(&mut g, &mut d, false, &run);
    assert_eq!(status, Status::Failed);
    assert_eq!(ran, vec!["s".to_string(), "n1".to_string(), "n2".to_string()]);
    for id in ["s", "n1", "n2"] {
        assert_ne!(g.nodes.get(id).unwrap().status, Status::NotStarted);
    }
    let n2 = g.nodes.get("n2").unwrap();
    assert_eq!(n2.status, Status::Success);
    match n2.inputs.get("in") {
        Some(JsonValue::Number(JsonNumber::PosInt(5))) => {}
        other => panic!("unexpected input {:?}", other),
    }
    let logs: Vec<String> = events
        .iter()
        .filter_map(|e| match e {
            EngineEvent::NodeLog { message, .. } => Some(message.clone()),
            _ => None,
        })
        .collect();
    assert_eq!(logs[0], "Executing s");
    assert_eq!(logs[1], "Finished s with Failed");
    assert!(logs.contains(&"Finished n2 with Success".to_string()));
}

#[test]
fn drive_follows_only_the_outcome_taken() {
    let mut g = gr_data_flow_graph();
    let mut d = g.begin_execute("wf-2".to_string()).0.unwrap();
    let run = |_: &str| -> (Status, JsonMap) { (Status::Success, StrMap::new()) };
    let (status, _, ran) = gr_drive(&mut g, &mut d, false, &run);
    assert_eq!(status, Status::Success);
    assert_eq!(ran, vec!["s".to_string()]);
    assert_eq!(g.nodes.get("n2").unwrap().status, Status::NotStarted);
}

#[test]
fn drive_follows_the_success_edge() {
    let pm = gr_plugins();
    let def = WorkflowDefinition {
        version: "1.0".into(),
        name: "wf".into(),
        metadata: None,
        nodes: vec![gr_inst("s", "sys:start", None), gr_inst("n1", "mysys:n1", None)],
        edges: vec![gr_edge("s", "__success__", "n1", "__input__")],
    };
    let mut g = Graph::from_definition(&def, &pm).unwrap();
    let mut d = g.begin_execute("wf-6".to_string()).0.unwrap();
    let run = |id: &str| -> (Status, JsonMap) {
        if id == "n1" { (Status::Failed, StrMap::new()) } else { (Status::Success, StrMap::new()) }
    };
    let (status, _, ran) = gr_drive(&mut g, &mut d, false, &run);
    assert_eq!(status, Status::Success);
    assert_eq!(ran, vec!["s".to_string(), "n1".to_string()]);
    assert_eq!(g.nodes.get("n1").unwrap().status, Status::Failed);
}

#[test]
fn drive_missing_upstream_output_fails_the_node() {
    let mut g = gr_data_flow_graph();
    let mut d = g.begin_execute("wf-3".to_string()).0.unwrap();
    let run = |id: &str| -> (Status, JsonMap) {
        if id == "s" { (Status::Failed, StrMap::new()) } else { (Status::Success, StrMap::new()) }
    };
    let (status, events, ran) = gr_drive(&mut g, &mut d, false, &run);
    assert_eq!(status, Status::Failed);
    assert_eq!(ran, vec!["s".to_string(), "n1".to_string()]);
    assert_eq!(g.nodes.get("n2").unwrap().status, Status::Failed);
    let errors: Vec<String> = events
        .iter()
        .filter_map(|e| match e {
            EngineEvent::NodeError { error, .. } => Some(error.clone()),
            _ => None,
        })
        .collect();
    assert_eq!(errors, vec!["Upstream node `n1` produced no output `x`".to_string()]);
}

#[test]
fn drive_cancelled_before_start() {
    let mut g = gr_data_flow_graph();
    let mut d = g.begin_execute("wf-4".to_string()).0.unwrap();
    let run = |_: &str| -> (Status, JsonMap) { (Status::Success, StrMap::new()) };
    let (status, events, ran) = gr_drive(&mut g, &mut d, true, &run);
    assert_eq!(status, Status::Failed);
    assert!(ran.is_empty());
    assert_eq!(g.nodes.get("s").unwrap().status, Status::Failed);
    assert!(events.iter().any(|e| matches!(e, EngineEvent::WorkflowFinished { is_success: false, .. })));
}

#[test]
fn drive_without_start_node_fails_at_once() {
    let pm = gr_plugins();
    let def = WorkflowDefinition {
        version: "1.0".into(),
        name: "wf".into(),
        metadata: None,
        nodes: vec![gr_inst("n1", "mysys:n1", None)],
        edges: vec![],
    };
    let g = Graph::from_definition(&def, &pm).unwrap();
    let (d, evs) = g.begin_execute("wf-5".to_string());
    assert!(d.is_none());
    assert_eq!(evs.len(), 1);
    assert!(matches!(&evs[0], EngineEvent::WorkflowFinished { workflow_id, is_success: false } if workflow_id == "wf-5"));
}

#[test]
fn executor_defaults_by_runtime() {
    let mut m = gr_manifest("mysys", vec![]);
    assert!(executor_for(&m).is_empty());
    m.runtime = Some(RuntimeSpec { language: "python".to_string(), manager: "uv".to_string() });
    assert_eq!(executor_for(&m), vec!["uv", "run", "python", "-m", "mysys"]);
    m.runtime = Some(RuntimeSpec { language: "bash".to_string(), manager: "".to_string() });
    assert_eq!(executor_for(&m), vec!["bash", "plugin.sh"]);
    m.executor = Some(vec!["./run".to_string()]);
    assert_eq!(executor_for(&m), vec!["./run"]);
}

#[test]
fn command_line_appends_the_class() {
    let exec = vec!["uv".to_string(), "run".to_string()];
    assert_eq!(command_line(&exec, &gr_spec("a:b", Some("Upper"))), vec!["uv", "run", "Upper"]);
    assert_eq!(command_line(&exec, &gr_spec("a:b", None)), vec!["uv", "run"]);
}

#[test]
fn parsed_output_lines_are_read() {
    let outs = JsonValue::Object(vec![("y".to_string(), JsonValue::Bool(true))]);
    let line = JsonValue::Object(vec![("type".to_string(), JsonValue::String("output".to_string())), ("outputs".to_string(), outs)]);
    match line_effect("{...}".to_string(), Some(line)) {
        LineEffect::Outputs(m) => assert!(matches!(m.get("y"), Some(JsonValue::Bool(true)))),
        other => panic!("unexpected {:?}", other),
    }
    let log = JsonValue::Object(vec![("type".to_string(), JsonValue::String("log".to_string())), ("message".to_string(), JsonValue::String("hi".to_string()))]);
    match line_effect("{...}".to_string(), Some(log)) {
        LineEffect::Log { level, message } => {
            assert_eq!(level, "info");
            assert_eq!(message, "hi");
        }
        other => panic!("unexpected {:?}", other),
    }
    match line_effect("plain text".to_string(), None) {
        LineEffect::Log { level, message } => {
            assert_eq!(level, "info");
            assert_eq!(message, "plain text");
        }
        other => panic!("unexpected {:?}", other),
    }
    let bare = JsonValue::Object(vec![("type".to_string(), JsonValue::String("output".to_string()))]);
    assert!(matches!(line_effect("x".to_string(), Some(bare)), LineEffect::Nothing));
}

#[test]
fn output_lines_are_read_from_text() {
    match read_output_line(r#"{"type":"output","outputs":{"y":true,"n":3}}"#.to_string()) {
        LineEffect::Outputs(m) => {
            assert!(matches!(m.get("y"), Some(JsonValue::Bool(true))));
            assert!(matches!(m.get("n"), Some(JsonValue::Number(JsonNumber::PosInt(3)))));
        }
        other => panic!("unexpected {:?}", other),
    }
    match read_output_line(r#"{"type":"log","level":"warn","message":"careful"}"#.to_string()) {
        LineEffect::Log { level, message } => {
            assert_eq!(level, "warn");
            assert_eq!(message, "careful");
        }
        other => panic!("unexpected {:?}", other),
    }
    match read_output_line(r#"{"type":"log"}"#.to_string()) {
        LineEffect::Log { level, message } => {
            assert_eq!(level, "info");
            assert_eq!(message, "");
        }
        other => panic!("unexpected {:?}", other),
    }
    match read_output_line("not json {".to_string()) {
        LineEffect::Log { level, message } => {
            assert_eq!(level, "info");
            assert_eq!(message, "not json {");
        }
        other => panic!("unexpected {:?}", other),
    }
    match read_output_line(r#"{"type":"progress","value":5}"#.to_string()) {
        LineEffect::Log { level, message } => {
            assert_eq!(level, "info");
            assert_eq!(message, r#"{"type":"progress","value":5}"#);
        }
        other => panic!("unexpected {:?}", other),
    }
    assert!(matches!(read_output_line(r#"{"type":"output","outputs":[1]}"#.to_string()), LineEffect::Nothing));
}

#[test]
fn subprocess_steps_keep_the_last_outputs() {
    let mut outs: JsonMap = StrMap::new();
    let (st, ev) = subprocess_step(&mut outs, "w", "n", ProcessEvent::Line(r#"{"type":"output","outputs":{"a":1}}"#.to_string()));
    assert!(st.is_none());
    assert!(matches!(ev, Some(EngineEvent::NodeOutput { ref workflow_id, ref node_id }) if workflow_id == "w" && node_id == "n"));
    let (st, _) = subprocess_step(&mut outs, "w", "n", ProcessEvent::Line(r#"{"type":"output","outputs":{"b":2}}"#.to_string()));
    assert!(st.is_none());
    assert!(outs.get("a").is_none());
    assert!(matches!(outs.get("b"), Some(JsonValue::Number(JsonNumber::PosInt(2)))));
    let (st, ev) = subprocess_step(&mut outs, "w", "n", ProcessEvent::Line("hello".to_string()));
    assert!(st.is_none());
    assert!(matches!(ev, Some(EngineEvent::NodeLog { ref level, ref message, .. }) if level == "info" && message == "hello"));
    let (st, ev) = subprocess_step(&mut outs, "w", "n", ProcessEvent::ReadFailed("bad bytes".to_string()));
    assert!(st.is_none());
    assert!(matches!(ev, Some(EngineEvent::NodeError { ref error, .. }) if error == "Stdout I/O error: bad bytes"));
    let (st, ev) = subprocess_step(&mut outs, "w", "n", ProcessEvent::Exited(true));
    assert_eq!(st, Some(Status::Success));
    assert!(ev.is_none());
    assert!(outs.get("b").is_some());
    let (st, _) = subprocess_step(&mut outs, "w", "n", ProcessEvent::Exited(false));
    assert_eq!(st, Some(Status::Failed));
    let (st, _) = subprocess_step(&mut outs, "w", "n", ProcessEvent::Cancelled);
    assert_eq!(st, Some(Status::Failed));
    assert!(outs.get("b").is_some());
}

#[test]
fn subprocess_start_failures_clear_the_outputs() {
    let mut outs: JsonMap = StrMap::new();
    outs.insert("x".to_string(), JsonValue::Null);
    let (st, ev) = subprocess_step(&mut outs, "w", "n", ProcessEvent::SpawnFailed("no such file".to_string()));
    assert_eq!(st, Some(Status::Failed));
    assert!(outs.get("x").is_none());
    assert!(matches!(ev, Some(EngineEvent::NodeError { ref error, .. }) if error == "Failed to spawn process: no such file"));
    let (_, ev) = subprocess_step(&mut outs, "w", "n", ProcessEvent::InputWriteFailed("broken pipe".to_string()));
    assert!(matches!(ev, Some(EngineEvent::NodeError { ref error, .. }) if error == "Failed to serialize inputs: broken pipe"));
    let (st, ev) = subprocess_step(&mut outs, "w", "n", ProcessEvent::InputFlushFailed("closed".to_string()));
    assert_eq!(st, Some(Status::Failed));
    assert!(matches!(ev, Some(EngineEvent::NodeError { ref error, .. }) if error == "Failed to flush stdin: closed"));
}

#[test]
fn missing_start_node_is_reported() {
    let pm = gr_plugins();
    let def = WorkflowDefinition {
        version: "1.0".into(),
        name: "wf".into(),
        metadata: None,
        nodes: vec![gr_inst("n1", "mysys:n1", None)],
        edges: vec![],
    };
    let g = Graph::from_definition(&def, &pm).unwrap();
    assert!(g.get_start_id().is_err());
}
