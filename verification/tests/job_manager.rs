use moirai::engine::dependency::DependencyGraph;
use moirai::engine::executor::{route_node, NodeRoute};
use moirai::engine::job_manager::{JobRun, JobStatus, JobStep, JobTable};
use moirai::json::{JsonMap, JsonNumber, JsonValue};
use moirai::models::{ControlPortDefinition, Edge, Job, Metadata, Node, NodeStatus, Position, RetryPolicy};
use moirai::plugin::PluginRegistry;
use moirai::strmap::StrMap;
use moirai::system_plugin::register_system_plugin;

fn jm_metadata() -> Metadata {
    Metadata {
        created_at: "2023-04-02T12:34:56Z".to_string(),
        created_by: "test@example.com".to_string(),
        queued_at: "2023-04-02T12:34:56Z".to_string(),
        started_at: None,
        finished_at: None,
    }
}

fn jm_job(id: &str, nodes: Vec<Node>, edges: Vec<Edge>) -> Job {
    Job {
        job_id: id.to_string(),
        name: "Test Job".to_string(),
        description: "Test job for unit tests".to_string(),
        timeout: 120,
        retries: 3,
        callback_url: "".to_string(),
        parameters: JsonValue::Null,
        nodes,
        edges,
        metadata: jm_metadata(),
    }
}

fn jm_port(id: &str) -> ControlPortDefinition {
    ControlPortDefinition { id: id.to_string(), name: id.to_string(), description: None, required: false, multiple: false }
}

fn jm_node(id: &str, plugin: &str, action: &str) -> Node {
    Node {
        id: id.to_string(),
        name: id.to_string(),
        action: action.to_string(),
        plugin: plugin.to_string(),
        version: "1.0.0".to_string(),
        trigger: jm_port("trigger"),
        success_exit: jm_port("success"),
        failure_exit: jm_port("failure"),
        inputs: vec![],
        outputs: vec![],
        timeout: 30,
        retry_policy: RetryPolicy { max_retries: 0, delay: 0, backoff_factor_bits: 0, retry_on: vec![] },
        static_parameters: JsonValue::Null,
        position: Position { x_bits: 0, y_bits: 0 },
        logs: vec![],
        status: NodeStatus::Pending,
        error: None,
        metadata: jm_metadata(),
    }
}

fn jm_edge(from: &str, from_port: &str, to: &str, to_port: &str) -> Edge {
    Edge { from: from.to_string(), from_port: from_port.to_string(), to: to.to_string(), to_port: to_port.to_string(), condition: None }
}

#[test]
fn test_submit_job() {
    let mut table = JobTable::new();
    let job = jm_job("job-001", vec![], vec![]);
    let result = table.submit_job(job.job_id.as_str());
    assert!(result.is_ok());
    assert_eq!(result.unwrap(), "job-001");
}

#[test]
fn test_get_job_status() {
    let mut table = JobTable::new();
    let job = jm_job("job-002", vec![], vec![]);
    table.submit_job(job.job_id.as_str()).unwrap();
    let status = table.get_job_status("job-002");
    assert_eq!(status, Some(JobStatus::Queued));
}

#[test]
fn test_cancel_job() {
    let mut table = JobTable::new();
    let job = jm_job("job-003", vec![], vec![]);
    table.submit_job(job.job_id.as_str()).unwrap();
    let result = table.cancel_job("job-003");
    assert!(result.is_err());
}

#[test]
fn job_table_messages() {
    let mut table = JobTable::new();
    table.submit_job("j").unwrap();
    assert_eq!(table.submit_job("j").err(), Some("Job with ID j already exists".to_string()));
    assert_eq!(table.cancel_job("nope").err(), Some("Job not found: nope".to_string()));
    assert_eq!(table.cancel_job("j").err(), Some("Job is not running (status: Queued)".to_string()));
    table.set_status("j", JobStatus::Running);
    assert_eq!(table.cancel_job("j").err(), Some("Job is not running (status: Running)".to_string()));
    table.attach_task("j");
    assert!(table.cancel_job("j").is_ok());
    assert_eq!(table.get_job_status("j"), Some(JobStatus::Cancelled));
    assert_eq!(table.cancel_job("j").err(), Some("Job is not running (status: Cancelled)".to_string()));
    assert_eq!(table.queue.len(), 1);
}

fn jm_out(k: &str, v: i64) -> JsonMap {
    let mut m: JsonMap = StrMap::new();
    m.insert(k.to_string(), JsonValue::Number(JsonNumber::NegInt(v)));
    m
}

#[test]
fn job_run_follows_control_and_data_edges() {
    let job = jm_job(
        "job-run",
        vec![jm_node("s", "system", "start"), jm_node("a", "math", "neg"), jm_node("e", "system", "end")],
        vec![
            jm_edge("s", "success", "a", "trigger"),
            jm_edge("a", "success", "e", "trigger"),
            jm_edge("a", "value", "e", "message"),
        ],
    );
    let (mut run, changes) = JobRun::start(&job).unwrap();
    assert_eq!(changes.len(), 1);
    assert_eq!(changes[0].node_id, "s");
    assert_eq!(run.statuses.get("a"), Some(&NodeStatus::Pending));

    let mut order = Vec::new();
    let mut steps = 0;
    loop {
        steps += 1;
        match run.next(&job) {
            JobStep::Execute { node_index, node_id, inputs } => {
                assert_eq!(job.nodes[node_index].id, node_id);
                order.push(node_id.clone());
                let result = if node_id == "a" {
                    assert!(inputs.is_empty());
                    Ok(jm_out("value", -3))
                } else if node_id == "e" {
                    match inputs.get("message") {
                        Some(JsonValue::Number(JsonNumber::NegInt(-3))) => {}
                        other => panic!("unexpected input {:?}", other),
                    }
                    Ok(StrMap::new())
                } else {
                    Ok(StrMap::new())
                };
                let changes = run.complete(&job, node_id.as_str(), result);
                steps += 1;
                assert_eq!(changes[0].new_status, NodeStatus::Success);
            }
            JobStep::Wait => panic!("nothing runs in the background"),
            JobStep::Finished => break,
        }
    }
    assert_eq!(order, vec!["s".to_string(), "a".to_string(), "e".to_string()]);
    // Two steps per node, and the last `next` that finds nothing to do.
    assert_eq!(steps, 2 * job.nodes.len() + 1);
    assert_eq!(run.statuses.get("e"), Some(&NodeStatus::Success));
}

#[test]
fn job_run_failure_takes_the_failure_port() {
    let job = jm_job(
        "job-fail",
        vec![jm_node("s", "system", "start"), jm_node("ok", "x", "y"), jm_node("bad", "x", "y")],
        vec![jm_edge("s", "success", "ok", "trigger"), jm_edge("s", "failure", "bad", "trigger")],
    );
    let (mut run, _) = JobRun::start(&job).unwrap();
    match run.next(&job) {
        JobStep::Execute { node_id, .. } => {
            let changes = run.complete(&job, node_id.as_str(), Err("boom".to_string()));
            assert_eq!(changes.len(), 2);
            assert_eq!(changes[1].node_id, "bad");
        }
        _ => panic!("the start node is ready"),
    }
    assert_eq!(run.errors.get("s"), Some(&"boom".to_string()));
    assert_eq!(run.statuses.get("ok"), Some(&NodeStatus::Pending));
    assert_eq!(run.statuses.get("bad"), Some(&NodeStatus::Ready));
}

#[test]
fn job_run_needs_a_start_node() {
    let job = jm_job("job-none", vec![jm_node("a", "x", "y")], vec![]);
    assert_eq!(JobRun::start(&job).err(), Some("No start nodes found in workflow".to_string()));
}

#[test]
fn job_validate_counts_start_and_end_nodes() {
    let job = jm_job("v", vec![jm_node("s", "system", "start"), jm_node("e", "system", "end")], vec![]);
    assert_eq!(job.validate().err(), Some("Workflow must have exactly one Start node. found 1".to_string()));
    let job = jm_job("v", vec![jm_node("a", "x", "y")], vec![]);
    assert_eq!(job.validate().err(), Some("Workflow must have at least one end node".to_string()));
    let job = jm_job("v", vec![jm_node("e", "system", "end")], vec![]);
    assert!(job.validate().is_ok());
}

#[test]
fn dependency_graph_answers() {
    let job = jm_job(
        "dep",
        vec![jm_node("s", "system", "start"), jm_node("a", "x", "y"), jm_node("b", "x", "y"), jm_node("e", "system", "end")],
        vec![
            jm_edge("s", "success", "a", "trigger"),
            jm_edge("s", "success", "b", "trigger"),
            jm_edge("a", "out", "e", "in"),
            jm_edge("b", "out", "e", "in"),
            jm_edge("ghost", "out", "e", "in"),
        ],
    );
    let g = DependencyGraph::new(&job);
    assert_eq!(g.get_start_nodes(), vec!["s".to_string()]);
    assert_eq!(g.get_end_nodes(), vec!["e".to_string()]);
    assert_eq!(g.get_nodes_with_no_dependencies(), vec!["s".to_string()]);
    let mut deps = g.get_dependencies("e");
    deps.sort();
    assert_eq!(deps, vec!["a".to_string(), "b".to_string()]);
    let mut outs = g.get_dependents("s");
    outs.sort();
    assert_eq!(outs, vec!["a".to_string(), "b".to_string()]);
    assert!(g.get_dependencies("nobody").is_empty());
    assert!(g.get_dependencies("s").is_empty());
    assert_eq!(g.get_dependents("a"), vec!["e".to_string()]);
    assert_eq!(g.get_dependencies("a"), vec!["s".to_string()]);
}

#[test]
fn routing_nodes_to_plugins() {
    let mut registry = PluginRegistry::new();
    register_system_plugin(&mut registry).unwrap();
    let start = jm_node("s", "system", "start");
    assert!(matches!(route_node(&registry, &start), Ok(NodeRoute::System)));
    let unknown = jm_node("u", "foo", "bar");
    assert_eq!(route_node(&registry, &unknown).err(), Some("Plugin not found: foo".to_string()));
    let mut other_version = jm_node("v", "system", "custom");
    other_version.version = "9.9.9".to_string();
    match route_node(&registry, &other_version) {
        Ok(NodeRoute::Plugin(p)) => assert_eq!(p.name, "system"),
        _ => panic!("the system plugin is the only one of that name"),
    }
}

#[test]
fn job_run_with_an_untaken_branch_finishes() {
    let job = jm_job(
        "job-dead",
        vec![jm_node("s", "system", "start"), jm_node("ok", "x", "y"), jm_node("bad", "x", "y")],
        vec![jm_edge("s", "success", "ok", "trigger"), jm_edge("s", "failure", "bad", "trigger")],
    );
    let (mut run, _) = JobRun::start(&job).unwrap();
    for _ in 0..2 {
        match run.next(&job) {
            JobStep::Execute { node_id, .. } => {
                run.complete(&job, node_id.as_str(), Ok(StrMap::new()));
            }
            _ => panic!("two nodes run"),
        }
    }
    assert!(matches!(run.next(&job), JobStep::Finished));
    assert_eq!(run.statuses.get("bad"), Some(&NodeStatus::Pending));
}
