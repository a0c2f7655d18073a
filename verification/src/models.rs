//! The job model: jobs, their nodes and edges, and node parameters.

use vstd::prelude::*;
use crate::json::JsonValue;
use crate::text::{str_eq, u64_text, decimal, concat};

verus! {

/// The kind of value a parameter carries.
#[derive(Clone, Copy, Debug, PartialEq, Eq, Structural)]
pub enum ParameterType {
    String,
    Number,
    Boolean,
    Object,
}

/// A data port of an action or node.
#[derive(Debug)]
pub struct ParameterDefinition {
    pub id: String,
    pub name: String,
    pub param_type: ParameterType,
    pub description: Option<String>,
    pub required: bool,
    pub multiple: bool,
    pub default: Option<JsonValue>,
}

/// A control port (trigger or exit) of a node.
#[derive(Debug)]
pub struct ControlPortDefinition {
    pub id: String,
    pub name: String,
    pub description: Option<String>,
    pub required: bool,
    pub multiple: bool,
}

/// A job: a graph of nodes and edges with its run settings.
#[derive(Debug)]
pub struct Job {
    pub job_id: String,
    pub name: String,
    pub description: String,
    pub timeout: u32,
    pub retries: u32,
    pub callback_url: String,
    pub parameters: JsonValue,
    pub nodes: Vec<Node>,
    pub edges: Vec<Edge>,
    pub metadata: Metadata,
}

/// A node of a job: an action of a plugin, with its ports and run state.
#[derive(Debug)]
pub struct Node {
    pub id: String,
    pub name: String,
    /// Name of the action in the plugin.
    pub action: String,
    /// Plugin the action comes from.
    pub plugin: String,
    pub version: String,
    pub trigger: ControlPortDefinition,
    pub success_exit: ControlPortDefinition,
    pub failure_exit: ControlPortDefinition,
    pub inputs: Vec<ParameterDefinition>,
    pub outputs: Vec<ParameterDefinition>,
    /// In seconds.
    pub timeout: u32,
    pub retry_policy: RetryPolicy,
    pub static_parameters: JsonValue,
    pub position: Position,
    pub logs: Vec<LogEntry>,
    pub status: NodeStatus,
    pub error: Option<String>,
    pub metadata: Metadata,
}

/// The run state of a node.
#[derive(Clone, Copy, Debug, PartialEq, Eq, Structural)]
pub enum NodeStatus {
    /// Initial state.
    Pending,
    /// All dependencies satisfied.
    Ready,
    /// Executing.
    Running,
    /// Completed successfully.
    Success,
    /// Failed.
    Failure,
    /// Bypassed.
    Skipped,
    /// Cancelled by the user.
    Cancelled,
}

/// An edge from a port of one node to a port of another.
#[derive(Debug)]
pub struct Edge {
    pub from: String,
    pub from_port: String,
    pub to: String,
    pub to_port: String,
    pub condition: Option<String>,
}

/// Timestamps and authorship of a job or node.
#[derive(Debug)]
pub struct Metadata {
    pub created_at: String,
    pub created_by: String,
    pub queued_at: String,
    pub started_at: Option<String>,
    pub finished_at: Option<String>,
}

/// Display position of a node; each coordinate is the bit pattern of an `f32`.
#[derive(Clone, Copy, Debug, PartialEq, Eq)]
pub struct Position {
    pub x_bits: u32,
    pub y_bits: u32,
}

/// A log line of a node.
#[derive(Debug)]
pub struct LogEntry {
    pub timestamp: String,
    pub level: String,
    pub message: String,
}

/// How a node is retried; the backoff factor is the bit pattern of an `f32`.
#[derive(Debug)]
pub struct RetryPolicy {
    pub max_retries: u32,
    /// In seconds.
    pub delay: u32,
    pub backoff_factor_bits: u32,
    /// Error codes to retry on.
    pub retry_on: Vec<String>,
}

/// A node that the system plugin's action `action` stands for.
pub open spec fn is_system_action(n: Node, action: Seq<char>) -> bool {
    n.plugin@ == "system"@ && n.action@ == action
}

/// Number of nodes of `ns` that are system nodes of the given action.
pub open spec fn count_action(ns: Seq<Node>, action: Seq<char>) -> nat
    decreases ns.len(),
{
    if ns.len() == 0 {
        0
    } else {
        count_action(ns.drop_last(), action) + if is_system_action(ns.last(), action) {
            1nat
        } else {
            0nat
        }
    }
}

/// What `Job::validate` answers: an error when the job has any start node
/// (with the count in the message), else an error when it has no end node.
/// The message speaks of "exactly one" start node, but the check refuses
/// every count but zero; that is the rule as the job model has it.
pub open spec fn validation_outcome(nodes: Seq<Node>) -> Result<(), Seq<char>> {
    let starts = count_action(nodes, "start"@);
    if starts != 0 {
        Err("Workflow must have exactly one Start node. found "@ + decimal(starts))
    } else if count_action(nodes, "end"@) == 0 {
        Err("Workflow must have at least one end node"@)
    } else {
        Ok(())
    }
}

/// Counts the system nodes of `nodes` with the given action.
fn count_system_nodes(nodes: &Vec<Node>, action: &str) -> (r: usize)
    ensures
        r == count_action(nodes@, action@),
{
    let mut k: usize = 0;
    let mut i: usize = 0;
    while i < nodes.len()
        invariant
            i <= nodes@.len(),
            k == count_action(nodes@.take(i as int), action@),
            k <= i,
        decreases nodes@.len() - i,
    {
        assert(nodes@.take(i + 1).drop_last() =~= nodes@.take(i as int));
        if str_eq(nodes[i].plugin.as_str(), "system") && str_eq(nodes[i].action.as_str(), action) {
            k = k + 1;
        }
        i = i + 1;
    }
    assert(nodes@.take(nodes@.len() as int) =~= nodes@);
    k
}

impl Job {
    /// Checks the shape of the job's start and end nodes: any job with a
    /// start node is refused (the message names the count, though it speaks
    /// of exactly one); a job without one is refused when it has no end node.
    pub fn validate(&self) -> (r: Result<(), String>)
        ensures
            match (r, validation_outcome(self.nodes@)) {
                (Ok(()), Ok(())) => true,
                (Err(m), Err(e)) => m@ == e,
                _ => false,
            },
    {
        let starts = count_system_nodes(&self.nodes, "start");
        if starts != 0 {
            let n = u64_text(starts as u64);
            return Err(concat("Workflow must have exactly one Start node. found ", n.as_str()));
        }
        let ends = count_system_nodes(&self.nodes, "end");
        if ends == 0 {
            return Err(String::from_str("Workflow must have at least one end node"));
        }
        Ok(())
    }
}

proof fn lemma_count_action_zero(ns: Seq<Node>, action: Seq<char>)
    ensures
        count_action(ns, action) == 0 <==> forall|i: int| 0 <= i < ns.len() ==> !(#[trigger] ns[i].plugin@ == "system"@ && ns[i].action@ == action),
    decreases ns.len(),
{
    if ns.len() > 0 {
        lemma_count_action_zero(ns.drop_last(), action);
        if count_action(ns, action) == 0 {
            assert forall|i: int| 0 <= i < ns.len() implies !(#[trigger] ns[i].plugin@ == "system"@ && ns[i].action@ == action) by {
                if i < ns.len() - 1 {
                    assert(ns.drop_last()[i] == ns[i]);
                }
            }
        } else if !is_system_action(ns.last(), action) {
            let i = choose|i: int| 0 <= i < ns.len() - 1 && (#[trigger] ns.drop_last()[i].plugin@ == "system"@ && ns.drop_last()[i].action@ == action);
            assert(ns[i] == ns.drop_last()[i]);
        }
    }
}

/// A job passes `Job::validate` exactly when it has no system start node
/// and at least one system end node, however many. A job with a start node
/// is refused with the count of its start nodes; one with neither is
/// refused for want of an end node.
pub proof fn law_job_validation(ns: Seq<Node>)
    ensures
        validation_outcome(ns) is Ok <==> (forall|i: int| 0 <= i < ns.len() ==> !(#[trigger] ns[i].plugin@ == "system"@ && ns[i].action@ == "start"@))
            && (exists|i: int| 0 <= i < ns.len() && #[trigger] ns[i].plugin@ == "system"@ && ns[i].action@ == "end"@),
        (exists|i: int| 0 <= i < ns.len() && #[trigger] ns[i].plugin@ == "system"@ && ns[i].action@ == "start"@)
            ==> validation_outcome(ns) == Err::<(), Seq<char>>("Workflow must have exactly one Start node. found "@ + decimal(count_action(ns, "start"@))),
        (forall|i: int| 0 <= i < ns.len() ==> !(#[trigger] ns[i].plugin@ == "system"@ && (ns[i].action@ == "start"@ || ns[i].action@ == "end"@)))
            ==> validation_outcome(ns) == Err::<(), Seq<char>>("Workflow must have at least one end node"@),
{
    lemma_count_action_zero(ns, "start"@);
    lemma_count_action_zero(ns, "end"@);
}

} // verus!
