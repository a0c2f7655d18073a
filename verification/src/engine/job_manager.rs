//! Job bookkeeping and the run of one job: which node runs next, with
//! which inputs, and what its result makes ready.

use vstd::prelude::*;
use crate::json::{JsonMap, JsonView, copy_map, map_view};
use crate::models::{Job, Node, Edge, NodeStatus};
use crate::strmap::{StrMap, entries_map, lemma_entries_map_at, lemma_entries_map_dom, lemma_entries_map_len};
use crate::system_plugin::is_start_node;
use crate::text::{str_eq, concat};

verus! {

/// Status of a job.
#[derive(Clone, Copy, Debug, PartialEq, Eq, Structural)]
pub enum JobStatus {
    /// Created, not queued.
    Created,
    /// Awaiting execution.
    Queued,
    /// Executing.
    Running,
    /// Completed successfully.
    Success,
    /// Failed.
    Failure,
    /// Cancelled.
    Cancelled,
}

/// A change of a node's status, to be announced.
#[derive(Debug)]
pub struct StatusChange {
    pub node_id: String,
    pub old_status: NodeStatus,
    pub new_status: NodeStatus,
}

/// The run of one job: the status of each node, the outputs of the nodes
/// that succeeded and the errors of those that failed.
#[derive(Debug)]
pub struct JobRun {
    pub statuses: StrMap<NodeStatus>,
    pub node_data: StrMap<JsonMap>,
    pub errors: StrMap<String>,
}

/// What to do next in a job run.
#[derive(Debug)]
pub enum JobStep {
    /// Execute the node at this position of the job with these inputs, then
    /// report its result with `complete`.
    Execute { node_index: usize, node_id: String, inputs: JsonMap },
    /// No node is ready but some node still runs: wait for it.
    Wait,
    /// No node is ready or running: the run is over. Nodes still pending
    /// then (those on a branch that was not taken) never run.
    Finished,
}

/// The ids of a list of nodes.
pub open spec fn node_ids(ns: Seq<Node>) -> Set<Seq<char>> {
    Set::new(|k: Seq<char>| exists|i: int| 0 <= i < ns.len() && #[trigger] ns[i].id@ == k)
}

/// The node of a job that stands for id `k`: the last one with that id.
pub open spec fn last_node_with(ns: Seq<Node>, k: Seq<char>) -> Option<int>
    decreases ns.len(),
{
    if ns.len() == 0 {
        None
    } else if ns.last().id@ == k {
        Some(ns.len() - 1)
    } else {
        last_node_with(ns.drop_last(), k)
    }
}

/// The outputs of the nodes that succeeded, by content.
pub open spec fn data_view(nd: Map<Seq<char>, JsonMap>) -> Map<Seq<char>, Map<Seq<char>, JsonView>> {
    nd.map_values(|m: JsonMap| map_view(m@))
}

/// A control edge (to port `trigger`) whose source has finished.
pub open spec fn control_ok(e: Edge, st: Map<Seq<char>, NodeStatus>) -> bool {
    st.dom().contains(e.from@) && (st[e.from@] == NodeStatus::Success || st[e.from@] == NodeStatus::Failure
        || st[e.from@] == NodeStatus::Skipped)
}

/// A data edge whose source succeeded and has the output it reads.
pub open spec fn data_ok(e: Edge, st: Map<Seq<char>, NodeStatus>, nd: Map<Seq<char>, Map<Seq<char>, JsonView>>) -> bool {
    &&& st.dom().contains(e.from@)
    &&& st[e.from@] == NodeStatus::Success
    &&& nd.dom().contains(e.from@)
    &&& nd[e.from@].dom().contains(e.from_port@)
}

/// Every edge into `id` is satisfied: control edges by a finished source,
/// data edges by a source that succeeded with the output.
pub open spec fn deps_satisfied(
    es: Seq<Edge>,
    id: Seq<char>,
    st: Map<Seq<char>, NodeStatus>,
    nd: Map<Seq<char>, Map<Seq<char>, JsonView>>,
) -> bool {
    forall|i: int| 0 <= i < es.len() && (#[trigger] es[i]).to@ == id ==> if es[i].to_port@ == "trigger"@ {
        control_ok(es[i], st)
    } else {
        data_ok(es[i], st, nd)
    }
}

/// The inputs of node `id`: for each data edge into it, in order, the
/// source's output on the edge's port, when the source has it.
pub open spec fn collected_inputs(
    es: Seq<Edge>,
    id: Seq<char>,
    nd: Map<Seq<char>, Map<Seq<char>, JsonView>>,
) -> Map<Seq<char>, JsonView>
    decreases es.len(),
{
    if es.len() == 0 {
        Map::empty()
    } else {
        let rest = collected_inputs(es.drop_last(), id, nd);
        let e = es.last();
        if e.to@ == id && e.to_port@ != "trigger"@ && nd.dom().contains(e.from@) && nd[e.from@].dom().contains(e.from_port@) {
            rest.insert(e.to_port@, nd[e.from@][e.from_port@])
        } else {
            rest
        }
    }
}

/// Whether edge `e`, met while node `id` leaves port `port` with statuses
/// `cur`, makes its target ready: a control edge from that port whose
/// target is pending and has its dependencies satisfied.
pub open spec fn readies(
    e: Edge,
    id: Seq<char>,
    port: Seq<char>,
    cur: Map<Seq<char>, NodeStatus>,
    nd: Map<Seq<char>, Map<Seq<char>, JsonView>>,
    all: Seq<Edge>,
) -> bool {
    &&& e.from@ == id
    &&& e.from_port@ == port
    &&& e.to_port@ == "trigger"@
    &&& deps_satisfied(all, e.to@, cur, nd)
    &&& cur.dom().contains(e.to@)
    &&& cur[e.to@] == NodeStatus::Pending
}

/// Statuses after node `id` left port `port`: walking the edges in order,
/// each edge that `readies` its target makes it ready.
pub open spec fn after_completion(
    es: Seq<Edge>,
    id: Seq<char>,
    port: Seq<char>,
    st: Map<Seq<char>, NodeStatus>,
    nd: Map<Seq<char>, Map<Seq<char>, JsonView>>,
    all: Seq<Edge>,
) -> Map<Seq<char>, NodeStatus>
    decreases es.len(),
{
    if es.len() == 0 {
        st
    } else {
        let cur = after_completion(es.drop_last(), id, port, st, nd, all);
        let e = es.last();
        if readies(e, id, port, cur, nd, all) {
            cur.insert(e.to@, NodeStatus::Ready)
        } else {
            cur
        }
    }
}

/// The nodes made ready while node `id` leaves port `port`, in order.
pub open spec fn readied(
    es: Seq<Edge>,
    id: Seq<char>,
    port: Seq<char>,
    st: Map<Seq<char>, NodeStatus>,
    nd: Map<Seq<char>, Map<Seq<char>, JsonView>>,
    all: Seq<Edge>,
) -> Seq<Seq<char>>
    decreases es.len(),
{
    if es.len() == 0 {
        Seq::empty()
    } else {
        let cur = after_completion(es.drop_last(), id, port, st, nd, all);
        let r = readied(es.drop_last(), id, port, st, nd, all);
        let e = es.last();
        if readies(e, id, port, cur, nd, all) {
            r.push(e.to@)
        } else {
            r
        }
    }
}

/// The order of statuses along a run: pending, ready, running, finished.
pub open spec fn rank(s: NodeStatus) -> int {
    match s {
        NodeStatus::Pending => 0,
        NodeStatus::Ready => 1,
        NodeStatus::Running => 2,
        _ => 3,
    }
}

/// A node that is pending, ready or running.
pub open spec fn unfinished(s: NodeStatus) -> bool {
    rank(s) < 3
}

/// Every status of `b` is at least as far along as in `a`, on the same nodes.
pub open spec fn advanced(a: Map<Seq<char>, NodeStatus>, b: Map<Seq<char>, NodeStatus>) -> bool {
    &&& b.dom() == a.dom()
    &&& forall|k: Seq<char>| #[trigger] a.dom().contains(k) ==> rank(a[k]) <= rank(b[k])
}

/// The nodes that are not finished.
pub open spec fn unfinished_nodes(st: Map<Seq<char>, NodeStatus>) -> Set<Seq<char>> {
    st.dom().filter(|k: Seq<char>| unfinished(st[k]))
}

/// The nodes that are running.
pub open spec fn running_nodes(st: Map<Seq<char>, NodeStatus>) -> Set<Seq<char>> {
    st.dom().filter(|k: Seq<char>| st[k] == NodeStatus::Running)
}

/// What is left of a run: each unfinished node counts twice, less one for
/// each running node (which has taken its first step).
pub open spec fn work_left(st: Map<Seq<char>, NodeStatus>) -> int {
    2 * unfinished_nodes(st).len() - running_nodes(st).len()
}

impl JobRun {
    /// Consistency of the run's tables: distinct keys in each, and
    /// well-formed outputs.
    pub open spec fn wf(&self) -> bool {
        &&& self.statuses.wf()
        &&& self.node_data.wf()
        &&& self.errors.wf()
        &&& forall|k: Seq<char>| #[trigger] self.node_data@.dom().contains(k) ==> self.node_data@[k].wf()
    }

    /// A consistent run of `job`: one status for each node id of the job;
    /// outputs only of nodes that succeeded, errors only of nodes that failed.
    pub open spec fn wf_for(&self, job: Job) -> bool {
        &&& self.wf()
        &&& self.statuses@.dom() == node_ids(job.nodes@)
        &&& forall|k: Seq<char>| #[trigger] self.node_data@.dom().contains(k)
            ==> self.statuses@.dom().contains(k) && self.statuses@[k] == NodeStatus::Success
        &&& forall|k: Seq<char>| #[trigger] self.errors@.dom().contains(k)
            ==> self.statuses@.dom().contains(k) && self.statuses@[k] == NodeStatus::Failure
    }

    /// The outputs of the run, by content.
    pub open spec fn data(&self) -> Map<Seq<char>, Map<Seq<char>, JsonView>> {
        data_view(self.node_data@)
    }
}

/// Whether the statuses hold a node with status `s`.
pub open spec fn has_status(st: Map<Seq<char>, NodeStatus>, s: NodeStatus) -> bool {
    exists|k: Seq<char>| #[trigger] st.dom().contains(k) && st[k] == s
}

/// The first node (in table order) with status `s`.
fn find_status(statuses: &StrMap<NodeStatus>, s: NodeStatus) -> (r: Option<usize>)
    requires
        statuses.wf(),
    ensures
        match r {
            Some(i) => i < statuses.entries@.len() && statuses.entries@[i as int].1 == s
                && statuses@.dom().contains(statuses.entries@[i as int].0@)
                && statuses@[statuses.entries@[i as int].0@] == s,
            None => !has_status(statuses@, s),
        },
{
    let mut i: usize = 0;
    while i < statuses.entries.len()
        invariant
            statuses.wf(),
            i <= statuses.entries@.len(),
            forall|j: int| 0 <= j < i ==> (#[trigger] statuses.entries@[j]).1 != s,
        decreases statuses.entries@.len() - i,
    {
        if statuses.entries[i].1 == s {
            proof {
                lemma_entries_map_at(statuses.entries@, i as int);
            }
            return Some(i);
        }
        i = i + 1;
    }
    proof {
        if has_status(statuses@, s) {
            let k = choose|k: Seq<char>| #[trigger] statuses@.dom().contains(k) && statuses@[k] == s;
            lemma_entries_map_dom(statuses.entries@, k);
            let j = choose|j: int| 0 <= j < statuses.entries@.len() && #[trigger] statuses.entries@[j].0@ == k;
            lemma_entries_map_at(statuses.entries@, j);
        }
    }
    None
}

/// Whether some node is ready or running.
pub fn has_active_nodes(statuses: &StrMap<NodeStatus>) -> (r: bool)
    requires
        statuses.wf(),
    ensures
        r == (has_status(statuses@, NodeStatus::Ready) || has_status(statuses@, NodeStatus::Running)),
{
    find_status(statuses, NodeStatus::Ready).is_some() || find_status(statuses, NodeStatus::Running).is_some()
}

/// Whether some node is running.
pub fn has_running_nodes(statuses: &StrMap<NodeStatus>) -> (r: bool)
    requires
        statuses.wf(),
    ensures
        r == has_status(statuses@, NodeStatus::Running),
{
    find_status(statuses, NodeStatus::Running).is_some()
}

/// Whether some node is pending.
pub fn has_pending_nodes(statuses: &StrMap<NodeStatus>) -> (r: bool)
    requires
        statuses.wf(),
    ensures
        r == has_status(statuses@, NodeStatus::Pending),
{
    find_status(statuses, NodeStatus::Pending).is_some()
}

/// A node that is ready, if any.
pub fn find_ready_node(statuses: &StrMap<NodeStatus>) -> (r: Option<String>)
    requires
        statuses.wf(),
    ensures
        match r {
            Some(k) => statuses@.dom().contains(k@) && statuses@[k@] == NodeStatus::Ready,
            None => !has_status(statuses@, NodeStatus::Ready),
        },
{
    match find_status(statuses, NodeStatus::Ready) {
        Some(i) => Some(statuses.entries[i].0.clone()),
        None => None,
    }
}

/// Whether every edge into `node_id` is satisfied.
#[verifier::spinoff_prover]
pub fn are_dependencies_satisfied(
    job: &Job,
    node_id: &str,
    node_data: &StrMap<JsonMap>,
    statuses: &StrMap<NodeStatus>,
) -> (r: bool)
    requires
        statuses.wf(),
        node_data.wf(),
        forall|k: Seq<char>| #[trigger] node_data@.dom().contains(k) ==> node_data@[k].wf(),
    ensures
        r == deps_satisfied(job.edges@, node_id@, statuses@, data_view(node_data@)),
{
    let es = &job.edges;
    let ghost nd = data_view(node_data@);
    // A node fed by a single control edge and no data edge is ready once
    // that edge's source has succeeded.
    let mut n_control: usize = 0;
    let mut n_data: usize = 0;
    let mut last_control: usize = 0;
    let mut i: usize = 0;
    while i < es.len()
        invariant
            i <= es@.len(),
            n_control <= i,
            n_data <= i,
            n_data == 0 ==> forall|j: int| 0 <= j < i && (#[trigger] es@[j]).to@ == node_id@ ==> es@[j].to_port@ == "trigger"@,
            n_control == 0 ==> forall|j: int| 0 <= j < i && (#[trigger] es@[j]).to@ == node_id@ ==> es@[j].to_port@ != "trigger"@,
            n_control == 1 ==> last_control < i && es@[last_control as int].to@ == node_id@ && es@[last_control as int].to_port@ == "trigger"@,
            n_control == 1 ==> forall|j: int| 0 <= j < i && j != last_control && (#[trigger] es@[j]).to@ == node_id@ ==> es@[j].to_port@ != "trigger"@,
        decreases es@.len() - i,
    {
        if str_eq(es[i].to.as_str(), node_id) {
            if str_eq(es[i].to_port.as_str(), "trigger") {
                if n_control == 1 {
                    n_control = 2;
                } else if n_control == 0 {
                    n_control = 1;
                    last_control = i;
                }
            } else {
                n_data = 1;
            }
        }
        i = i + 1;
    }
    if n_data == 0 && n_control == 1 {
        match statuses.get(es[last_control].from.as_str()) {
            Some(s) => {
                if *s == NodeStatus::Success {
                    assert(deps_satisfied(es@, node_id@, statuses@, nd));
                    return true;
                }
            },
            None => {},
        }
    }
    let mut j: usize = 0;
    while j < es.len()
        invariant
            statuses.wf(),
            node_data.wf(),
            forall|k: Seq<char>| #[trigger] node_data@.dom().contains(k) ==> node_data@[k].wf(),
            nd == data_view(node_data@),
            es@ == job.edges@,
            j <= es@.len(),
            forall|t: int| 0 <= t < j && (#[trigger] es@[t]).to@ == node_id@ ==> if es@[t].to_port@ == "trigger"@ {
                control_ok(es@[t], statuses@)
            } else {
                data_ok(es@[t], statuses@, nd)
            },
        decreases es@.len() - j,
    {
        let e = &es[j];
        if str_eq(e.to.as_str(), node_id) {
            if str_eq(e.to_port.as_str(), "trigger") {
                let ok = match statuses.get(e.from.as_str()) {
                    Some(s) => *s == NodeStatus::Success || *s == NodeStatus::Failure || *s == NodeStatus::Skipped,
                    None => false,
                };
                if !ok {
                    assert(!control_ok(es@[j as int], statuses@));
                    assert(!deps_satisfied(es@, node_id@, statuses@, nd)) by {
                        assert(es@[j as int].to@ == node_id@);
                        assert(es@[j as int].to_port@ == "trigger"@);
                    }
                    return false;
                }
            } else {
                let ok = match statuses.get(e.from.as_str()) {
                    Some(s) => *s == NodeStatus::Success && match node_data.get(e.from.as_str()) {
                        Some(data) => data.contains_key(e.from_port.as_str()),
                        None => false,
                    },
                    None => false,
                };
                if !ok {
                    assert(!data_ok(es@[j as int], statuses@, nd));
                    assert(!deps_satisfied(es@, node_id@, statuses@, nd)) by {
                        assert(es@[j as int].to@ == node_id@);
                        assert(es@[j as int].to_port@ != "trigger"@);
                    }
                    return false;
                }
            }
        }
        j = j + 1;
    }
    true
}

/// The inputs of node `node_id` from the outputs of its data sources.
pub fn collect_inputs(job: &Job, node_id: &str, node_data: &StrMap<JsonMap>) -> (r: JsonMap)
    requires
        node_data.wf(),
        forall|k: Seq<char>| #[trigger] node_data@.dom().contains(k) ==> node_data@[k].wf(),
    ensures
        r.wf(),
        map_view(r@) == collected_inputs(job.edges@, node_id@, data_view(node_data@)),
{
    let es = &job.edges;
    let ghost nd = data_view(node_data@);
    let mut inputs: JsonMap = StrMap::new();
    let mut i: usize = 0;
    while i < es.len()
        invariant
            node_data.wf(),
            forall|k: Seq<char>| #[trigger] node_data@.dom().contains(k) ==> node_data@[k].wf(),
            nd == data_view(node_data@),
            i <= es@.len(),
            inputs.wf(),
            map_view(inputs@) == collected_inputs(es@.take(i as int), node_id@, nd),
        decreases es@.len() - i,
    {
        let e = &es[i];
        proof {
            assert(es@.take(i + 1).drop_last() =~= es@.take(i as int));
            assert(es@.take(i + 1).last() == es@[i as int]);
        }
        if str_eq(e.to.as_str(), node_id) && !str_eq(e.to_port.as_str(), "trigger") {
            match node_data.get(e.from.as_str()) {
                Some(data) => match data.get(e.from_port.as_str()) {
                    Some(v) => {
                        let ghost before = inputs@;
                        inputs.insert(e.to_port.clone(), v.deep_copy());
                        assert(map_view(inputs@) =~= map_view(before).insert(e.to_port@, v@));
                    },
                    None => {},
                },
                None => {},
            }
        }
        i = i + 1;
    }
    assert(es@.take(es@.len() as int) =~= es@);
    inputs
}


/// The ids of the nodes of `ns` that are the system plugin's action
/// `action`, in order.
pub open spec fn action_ids(ns: Seq<Node>, action: Seq<char>) -> Seq<Seq<char>>
    decreases ns.len(),
{
    if ns.len() == 0 {
        Seq::empty()
    } else if ns.last().plugin@ == "system"@ && ns.last().action@ == action {
        action_ids(ns.drop_last(), action).push(ns.last().id@)
    } else {
        action_ids(ns.drop_last(), action)
    }
}

/// The ids of the start nodes of `ns`, in order.
pub open spec fn start_ids(ns: Seq<Node>) -> Seq<Seq<char>> {
    action_ids(ns, "start"@)
}

/// The statuses a run begins with: the start nodes ready, every other node
/// pending.
pub open spec fn initial_statuses(ns: Seq<Node>) -> Map<Seq<char>, NodeStatus> {
    Map::new(
        |k: Seq<char>| node_ids(ns).contains(k),
        |k: Seq<char>| if start_ids(ns).contains(k) { NodeStatus::Ready } else { NodeStatus::Pending },
    )
}

/// From position `from` on, the announcements `cs` are, in order, the
/// changes from pending to ready of the nodes `ids`.
pub open spec fn readied_changes(cs: Seq<StatusChange>, ids: Seq<Seq<char>>, from: int) -> bool {
    &&& cs.len() == from + ids.len()
    &&& forall|i: int| 0 <= i < ids.len() ==> cs[from + i].node_id@ == #[trigger] ids[i]
        && cs[from + i].old_status == NodeStatus::Pending && cs[from + i].new_status == NodeStatus::Ready
}

pub proof fn lemma_node_ids_step(ns: Seq<Node>, i: int)
    requires
        0 <= i < ns.len(),
    ensures
        node_ids(ns.take(i + 1)) =~= node_ids(ns.take(i)).insert(ns[i].id@),
{
    let a = ns.take(i + 1);
    let b = ns.take(i);
    assert forall|k: Seq<char>| node_ids(a).contains(k) <==> node_ids(b).insert(ns[i].id@).contains(k) by {
        if node_ids(a).contains(k) {
            let j = choose|j: int| 0 <= j < a.len() && #[trigger] a[j].id@ == k;
            if j < i {
                assert(b[j].id@ == k);
            }
        }
        if node_ids(b).contains(k) {
            let j = choose|j: int| 0 <= j < b.len() && #[trigger] b[j].id@ == k;
            assert(a[j].id@ == k);
        }
        if k == ns[i].id@ {
            assert(a[i].id@ == k);
        }
    }
}

pub proof fn lemma_seq_push_contains(s: Seq<Seq<char>>, x: Seq<char>, k: Seq<char>)
    ensures
        s.push(x).contains(k) <==> (s.contains(k) || k == x),
{
    if s.push(x).contains(k) {
        let j = choose|j: int| 0 <= j < s.push(x).len() && s.push(x)[j] == k;
        if j < s.len() {
            assert(s[j] == k);
        }
    }
    if s.contains(k) {
        let j = choose|j: int| 0 <= j < s.len() && s[j] == k;
        assert(s.push(x)[j] == k);
    }
    if k == x {
        assert(s.push(x)[s.len() as int] == k);
    }
}

proof fn lemma_readied_changes_push(cs: Seq<StatusChange>, ids: Seq<Seq<char>>, from: int, c: StatusChange)
    requires
        0 <= from,
        readied_changes(cs, ids, from),
        c.old_status == NodeStatus::Pending,
        c.new_status == NodeStatus::Ready,
    ensures
        readied_changes(cs.push(c), ids.push(c.node_id@), from),
{
    let cs2 = cs.push(c);
    let ids2 = ids.push(c.node_id@);
    assert forall|t: int| 0 <= t < ids2.len() implies cs2[from + t].node_id@ == #[trigger] ids2[t]
        && cs2[from + t].old_status == NodeStatus::Pending && cs2[from + t].new_status == NodeStatus::Ready by {
        if t < ids.len() {
            assert(ids2[t] == ids[t]);
            assert(cs[from + t].node_id@ == ids[t]);
            assert(cs2[from + t] == cs[from + t]);
        } else {
            assert(from + t == cs.len());
            assert(cs2[from + t] == c);
        }
    }
    assert(cs2.len() == from + ids2.len());
}

impl JobRun {
    /// Begins a run of `job`: every node pending but the start nodes, which
    /// are made ready (one announcement each, in job order); an error when
    /// the job has no start node.
    #[verifier::spinoff_prover]
    pub fn start(job: &Job) -> (r: Result<(JobRun, Vec<StatusChange>), String>)
        ensures
            match r {
                Ok((run, changes)) => {
                    &&& start_ids(job.nodes@).len() > 0
                    &&& run.wf_for(*job)
                    &&& run.statuses@ == initial_statuses(job.nodes@)
                    &&& run.node_data@ == Map::<Seq<char>, JsonMap>::empty()
                    &&& run.errors@ == Map::<Seq<char>, String>::empty()
                    &&& readied_changes(changes@, start_ids(job.nodes@), 0)
                },
                Err(e) => start_ids(job.nodes@).len() == 0 && e@ == "No start nodes found in workflow"@,
            },
    {
        let ns = &job.nodes;
        let mut statuses: StrMap<NodeStatus> = StrMap::new();
        let mut i: usize = 0;
        while i < ns.len()
            invariant
                i <= ns@.len(),
                statuses.wf(),
                statuses@ == Map::new(|k: Seq<char>| node_ids(ns@.take(i as int)).contains(k), |k: Seq<char>| NodeStatus::Pending),
            decreases ns@.len() - i,
        {
            proof {
                lemma_node_ids_step(ns@, i as int);
            }
            let ghost before = statuses@;
            statuses.insert(ns[i].id.clone(), NodeStatus::Pending);
            assert(statuses@ =~= Map::new(|k: Seq<char>| node_ids(ns@.take(i + 1)).contains(k), |k: Seq<char>| NodeStatus::Pending));
            i = i + 1;
        }
        assert(ns@.take(ns@.len() as int) =~= ns@);
        let mut changes: Vec<StatusChange> = Vec::new();
        let mut j: usize = 0;
        while j < ns.len()
            invariant
                j <= ns@.len(),
                statuses.wf(),
                statuses@ == Map::new(
                    |k: Seq<char>| node_ids(ns@).contains(k),
                    |k: Seq<char>| if start_ids(ns@.take(j as int)).contains(k) { NodeStatus::Ready } else { NodeStatus::Pending },
                ),
                readied_changes(changes@, start_ids(ns@.take(j as int)), 0),
            decreases ns@.len() - j,
        {
            let ghost pre = ns@.take(j as int);
            let ghost post = ns@.take(j + 1);
            assert(post.drop_last() =~= pre);
            assert(post.last() == ns@[j as int]);
            if is_start_node(ns[j].plugin.as_str(), ns[j].action.as_str()) {
                proof {
                    assert(node_ids(ns@).contains(ns@[j as int].id@)) by {
                        assert(ns@[j as int].id@ == ns@[j as int].id@);
                    }
                    assert forall|k: Seq<char>| start_ids(post).contains(k) <==> (start_ids(pre).contains(k) || k == ns@[j as int].id@) by {
                        lemma_seq_push_contains(start_ids(pre), ns@[j as int].id@, k);
                    }
                }
                statuses.insert(ns[j].id.clone(), NodeStatus::Ready);
                let ghost old_changes = changes@;
                changes.push(StatusChange {
                    node_id: ns[j].id.clone(),
                    old_status: NodeStatus::Pending,
                    new_status: NodeStatus::Ready,
                });
                assert(statuses@ =~= Map::new(
                    |k: Seq<char>| node_ids(ns@).contains(k),
                    |k: Seq<char>| if start_ids(post).contains(k) { NodeStatus::Ready } else { NodeStatus::Pending },
                ));
                proof {
                    lemma_readied_changes_push(old_changes, start_ids(pre), 0, changes@.last());
                    assert(changes@ =~= old_changes.push(changes@.last()));
                    assert(start_ids(post) == start_ids(pre).push(ns@[j as int].id@));
                }
            } else {
                assert(start_ids(post) == start_ids(pre));
            }
            j = j + 1;
        }
        if changes.len() == 0 {
            return Err(String::from_str("No start nodes found in workflow"));
        }
        proof {
            assert(statuses@.dom() =~= node_ids(ns@));
        }
        let run = JobRun { statuses, node_data: StrMap::new(), errors: StrMap::new() };
        Ok((run, changes))
    }
}


/// What `last_node_with` finds is a node with that id.
pub proof fn lemma_last_node_with(ns: Seq<Node>, k: Seq<char>)
    ensures
        node_ids(ns).contains(k) ==> last_node_with(ns, k) is Some,
        last_node_with(ns, k) matches Some(i) ==> 0 <= i < ns.len() && ns[i].id@ == k,
    decreases ns.len(),
{
    if ns.len() > 0 {
        lemma_last_node_with(ns.drop_last(), k);
        if node_ids(ns).contains(k) && ns.last().id@ != k {
            let j = choose|j: int| 0 <= j < ns.len() && #[trigger] ns[j].id@ == k;
            assert(j < ns.len() - 1);
            assert(ns.drop_last()[j].id@ == k);
        }
    }
}

/// The position of the last node of `nodes` with id `id`.
fn last_index_of(nodes: &Vec<Node>, id: &str) -> (r: Option<usize>)
    ensures
        match r {
            Some(i) => last_node_with(nodes@, id@) == Some(i as int),
            None => last_node_with(nodes@, id@) is None,
        },
{
    let mut found: Option<usize> = None;
    let mut i: usize = 0;
    while i < nodes.len()
        invariant
            i <= nodes@.len(),
            match found {
                Some(f) => last_node_with(nodes@.take(i as int), id@) == Some(f as int),
                None => last_node_with(nodes@.take(i as int), id@) is None,
            },
        decreases nodes@.len() - i,
    {
        assert(nodes@.take(i + 1).drop_last() =~= nodes@.take(i as int));
        assert(nodes@.take(i + 1).last() == nodes@[i as int]);
        if str_eq(nodes[i].id.as_str(), id) {
            found = Some(i);
        }
        i = i + 1;
    }
    assert(nodes@.take(nodes@.len() as int) =~= nodes@);
    found
}

impl JobRun {
    /// The next step of the run: a ready node, made running, to execute with
    /// the inputs collected from its data sources; else waiting while a node
    /// runs; else the end of the run.
    pub fn next(&mut self, job: &Job) -> (step: JobStep)
        requires
            old(self).wf_for(*job),
        ensures
            final(self).wf_for(*job),
            final(self).node_data@ == old(self).node_data@,
            final(self).errors@ == old(self).errors@,
            advanced(old(self).statuses@, final(self).statuses@),
            unfinished_nodes(final(self).statuses@) == unfinished_nodes(old(self).statuses@),
            match step {
                JobStep::Execute { node_index, node_id, inputs } => {
                    &&& run_step(job.edges@, old(self).statuses@, RunEvent::Executed(node_id@), old(self).data(), final(self).statuses@)
                    &&& work_left(final(self).statuses@) + 1 == work_left(old(self).statuses@)
                    &&& old(self).statuses@.dom().contains(node_id@)
                    &&& old(self).statuses@[node_id@] == NodeStatus::Ready
                    &&& final(self).statuses@ == old(self).statuses@.insert(node_id@, NodeStatus::Running)
                    &&& last_node_with(job.nodes@, node_id@) == Some(node_index as int)
                    &&& node_index < job.nodes@.len()
                    &&& job.nodes@[node_index as int].id@ == node_id@
                    &&& inputs.wf()
                    &&& map_view(inputs@) == collected_inputs(job.edges@, node_id@, old(self).data())
                },
                JobStep::Wait => {
                    &&& !has_status(old(self).statuses@, NodeStatus::Ready)
                    &&& has_status(old(self).statuses@, NodeStatus::Running)
                    &&& final(self).statuses@ == old(self).statuses@
                },
                JobStep::Finished => {
                    &&& !has_status(old(self).statuses@, NodeStatus::Ready)
                    &&& !has_status(old(self).statuses@, NodeStatus::Running)
                    &&& final(self).statuses@ == old(self).statuses@
                },
            },
    {
        match find_ready_node(&self.statuses) {
            Some(id) => {
                proof {
                    lemma_last_node_with(job.nodes@, id@);
                }
                let node_index = match last_index_of(&job.nodes, id.as_str()) {
                    Some(i) => i,
                    None => {
                        proof {
                            assert(false);
                        }
                        0
                    },
                };
                let inputs = collect_inputs(job, id.as_str(), &self.node_data);
                let ghost before = self.statuses@;
                self.statuses.insert(id.clone(), NodeStatus::Running);
                assert(self.statuses@.dom() =~= before.dom());
                assert(unfinished_nodes(self.statuses@) =~= unfinished_nodes(before));
                proof {
                    lemma_entries_map_len(self.statuses.entries@);
                    assert(running_nodes(self.statuses@) =~= running_nodes(before).insert(id@));
                    assert(!running_nodes(before).contains(id@));
                }
                JobStep::Execute { node_index, node_id: id, inputs }
            },
            None => {
                if has_running_nodes(&self.statuses) {
                    JobStep::Wait
                } else {
                    JobStep::Finished
                }
            },
        }
    }
}


/// `b` differs from `a` only in pending nodes made ready.
pub open spec fn only_readied(a: Map<Seq<char>, NodeStatus>, b: Map<Seq<char>, NodeStatus>) -> bool {
    &&& b.dom() == a.dom()
    &&& forall|k: Seq<char>| #[trigger] a.dom().contains(k) ==> b[k] == a[k] || (a[k] == NodeStatus::Pending && b[k] == NodeStatus::Ready)
}

/// Leaving a port only makes pending nodes ready.
proof fn lemma_after_completion_only_readies(
    es: Seq<Edge>,
    id: Seq<char>,
    port: Seq<char>,
    st: Map<Seq<char>, NodeStatus>,
    nd: Map<Seq<char>, Map<Seq<char>, JsonView>>,
    all: Seq<Edge>,
)
    ensures
        only_readied(st, after_completion(es, id, port, st, nd, all)),
    decreases es.len(),
{
    if es.len() > 0 {
        lemma_after_completion_only_readies(es.drop_last(), id, port, st, nd, all);
        let cur = after_completion(es.drop_last(), id, port, st, nd, all);
        let r = after_completion(es, id, port, st, nd, all);
        assert(r.dom() =~= st.dom());
    }
}

impl JobRun {
    /// Records the result of running node `node_id`: its outputs and
    /// success, or its error and failure; then walks the control edges from
    /// its success (or failure) port in order, making each pending target
    /// whose dependencies are satisfied ready. Returns the announcements:
    /// the node's own change first, then one per node made ready.
    #[verifier::spinoff_prover]
    pub fn complete(&mut self, job: &Job, node_id: &str, result: Result<JsonMap, String>) -> (changes: Vec<StatusChange>)
        requires
            old(self).wf_for(*job),
            old(self).statuses@.dom().contains(node_id@),
            old(self).statuses@[node_id@] == NodeStatus::Running,
            result matches Ok(m) ==> m.wf(),
        ensures
            final(self).wf_for(*job),
            advanced(old(self).statuses@, final(self).statuses@),
            unfinished_nodes(final(self).statuses@) == unfinished_nodes(old(self).statuses@).remove(node_id@),
            unfinished_nodes(final(self).statuses@).len() + 1 == unfinished_nodes(old(self).statuses@).len(),
            work_left(final(self).statuses@) + 1 == work_left(old(self).statuses@),
            run_step(job.edges@, old(self).statuses@, RunEvent::Completed(node_id@, result is Ok), final(self).data(), final(self).statuses@),
            changes@.len() >= 1,
            changes@[0].node_id@ == node_id@,
            changes@[0].old_status == NodeStatus::Running,
            match result {
                Ok(m) => {
                    let st = old(self).statuses@.insert(node_id@, NodeStatus::Success);
                    &&& final(self).node_data@ == old(self).node_data@.insert(node_id@, m)
                    &&& final(self).errors@ == old(self).errors@
                    &&& changes@[0].new_status == NodeStatus::Success
                    &&& final(self).statuses@ == after_completion(job.edges@, node_id@, "success"@, st, final(self).data(), job.edges@)
                    &&& readied_changes(changes@, readied(job.edges@, node_id@, "success"@, st, final(self).data(), job.edges@), 1)
                },
                Err(e) => {
                    let st = old(self).statuses@.insert(node_id@, NodeStatus::Failure);
                    &&& final(self).node_data@ == old(self).node_data@
                    &&& final(self).errors@ == old(self).errors@.insert(node_id@, e)
                    &&& changes@[0].new_status == NodeStatus::Failure
                    &&& final(self).statuses@ == after_completion(job.edges@, node_id@, "failure"@, st, final(self).data(), job.edges@)
                    &&& readied_changes(changes@, readied(job.edges@, node_id@, "failure"@, st, final(self).data(), job.edges@), 1)
                },
            },
    {
        let ghost st_old = self.statuses@;
        proof {
            lemma_entries_map_len(self.statuses.entries@);
        }
        let success = result.is_ok();
        let status = if success { NodeStatus::Success } else { NodeStatus::Failure };
        let port: &str = if success { "success" } else { "failure" };
        match result {
            Ok(m) => {
                self.node_data.insert(String::from_str(node_id), m);
            },
            Err(e) => {
                self.errors.insert(String::from_str(node_id), e);
            },
        }
        self.statuses.insert(String::from_str(node_id), status);
        let ghost st0 = self.statuses@;
        let ghost nd = self.data();
        let ghost nd_raw = self.node_data@;
        let ghost errs = self.errors@;
        assert(st0.dom() =~= st_old.dom());
        let mut changes: Vec<StatusChange> = Vec::new();
        changes.push(StatusChange { node_id: String::from_str(node_id), old_status: NodeStatus::Running, new_status: status });
        let es = &job.edges;
        let mut i: usize = 0;
        while i < es.len()
            invariant
                self.wf_for(*job),
                self.node_data@ == nd_raw,
                self.errors@ == errs,
                nd == data_view(nd_raw),
                es@ == job.edges@,
                i <= es@.len(),
                self.statuses@ == after_completion(es@.take(i as int), node_id@, port@, st0, nd, es@),
                readied_changes(changes@, readied(es@.take(i as int), node_id@, port@, st0, nd, es@), 1),
                changes@[0].node_id@ == node_id@,
                changes@[0].old_status == NodeStatus::Running,
                changes@[0].new_status == status,
            decreases es@.len() - i,
        {
            let ghost pre = es@.take(i as int);
            let ghost post = es@.take(i + 1);
            assert(post.drop_last() =~= pre);
            assert(post.last() == es@[i as int]);
            let e = &es[i];
            if str_eq(e.from.as_str(), node_id) && str_eq(e.from_port.as_str(), port) && str_eq(e.to_port.as_str(), "trigger") {
                if are_dependencies_satisfied(job, e.to.as_str(), &self.node_data, &self.statuses) {
                    let pending = match self.statuses.get(e.to.as_str()) {
                        Some(s) => *s == NodeStatus::Pending,
                        None => false,
                    };
                    if pending {
                        let ghost cur = self.statuses@;
                        self.statuses.insert(e.to.clone(), NodeStatus::Ready);
                        assert(self.statuses@.dom() =~= cur.dom());
                        let ghost old_changes = changes@;
                        changes.push(StatusChange {
                            node_id: e.to.clone(),
                            old_status: NodeStatus::Pending,
                            new_status: NodeStatus::Ready,
                        });
                        proof {
                            lemma_readied_changes_push(old_changes, readied(pre, node_id@, port@, st0, nd, es@), 1, changes@.last());
                            assert(changes@ =~= old_changes.push(changes@.last()));
                            assert(readied(post, node_id@, port@, st0, nd, es@) == readied(pre, node_id@, port@, st0, nd, es@).push(e.to@));
                        }
                    }
                }
            }
            i = i + 1;
        }
        assert(es@.take(es@.len() as int) =~= es@);
        proof {
            lemma_after_completion_only_readies(es@, node_id@, port@, st0, nd, es@);
            let fin = self.statuses@;
            assert(unfinished_nodes(fin) =~= unfinished_nodes(st_old).remove(node_id@));
            assert(unfinished_nodes(st_old).contains(node_id@));
            assert(running_nodes(fin) =~= running_nodes(st_old).remove(node_id@));
            assert(running_nodes(st_old).contains(node_id@));
        }
        changes
    }
}


/// Making pending nodes ready keeps every satisfied dependency satisfied:
/// the sources it rests on are finished, and finished nodes stay as they are.
proof fn lemma_deps_kept(
    all: Seq<Edge>,
    k: Seq<char>,
    a: Map<Seq<char>, NodeStatus>,
    b: Map<Seq<char>, NodeStatus>,
    nd: Map<Seq<char>, Map<Seq<char>, JsonView>>,
)
    requires
        only_readied(a, b),
        deps_satisfied(all, k, a, nd),
    ensures
        deps_satisfied(all, k, b, nd),
{
    assert forall|i: int| 0 <= i < all.len() && (#[trigger] all[i]).to@ == k implies if all[i].to_port@ == "trigger"@ {
        control_ok(all[i], b)
    } else {
        data_ok(all[i], b, nd)
    } by {
        assert(a.dom().contains(all[i].from@));
    }
}

/// A node that leaving a port made ready has its dependencies satisfied
/// once the walk over the edges is done.
pub proof fn law_readied_nodes_have_dependencies(
    es: Seq<Edge>,
    id: Seq<char>,
    port: Seq<char>,
    st: Map<Seq<char>, NodeStatus>,
    nd: Map<Seq<char>, Map<Seq<char>, JsonView>>,
    all: Seq<Edge>,
    k: Seq<char>,
)
    requires
        st.dom().contains(k),
        st[k] != NodeStatus::Ready,
        after_completion(es, id, port, st, nd, all)[k] == NodeStatus::Ready,
    ensures
        deps_satisfied(all, k, after_completion(es, id, port, st, nd, all), nd),
    decreases es.len(),
{
    let fin = after_completion(es, id, port, st, nd, all);
    let cur = after_completion(es.drop_last(), id, port, st, nd, all);
    lemma_after_completion_only_readies(es.drop_last(), id, port, st, nd, all);
    assert(only_readied(cur, fin)) by {
        assert(fin.dom() =~= cur.dom());
    }
    if cur[k] == NodeStatus::Ready {
        law_readied_nodes_have_dependencies(es.drop_last(), id, port, st, nd, all, k);
    } else {
        assert(es.last().to@ == k);
    }
    lemma_deps_kept(all, k, cur, fin, nd);
}


/// The name a job status is shown by.
pub open spec fn status_name(s: JobStatus) -> Seq<char> {
    match s {
        JobStatus::Created => "Created"@,
        JobStatus::Queued => "Queued"@,
        JobStatus::Running => "Running"@,
        JobStatus::Success => "Success"@,
        JobStatus::Failure => "Failure"@,
        JobStatus::Cancelled => "Cancelled"@,
    }
}

impl JobStatus {
    /// The name this status is shown by.
    pub fn name(&self) -> (r: &'static str)
        ensures
            r@ == status_name(*self),
    {
        match self {
            JobStatus::Created => "Created",
            JobStatus::Queued => "Queued",
            JobStatus::Running => "Running",
            JobStatus::Success => "Success",
            JobStatus::Failure => "Failure",
            JobStatus::Cancelled => "Cancelled",
        }
    }
}

/// What the job table holds of a submitted job: its status, and whether a
/// task executes it.
#[derive(Clone, Copy, Debug, PartialEq, Eq, Structural)]
pub struct JobRecord {
    pub status: JobStatus,
    pub has_task: bool,
}

/// The jobs submitted, by id, and the order in which they were queued.
#[derive(Debug)]
pub struct JobTable {
    pub jobs: StrMap<JobRecord>,
    pub queue: Vec<String>,
}

impl JobTable {
    /// An empty table.
    pub fn new() -> (r: JobTable)
        ensures
            r.jobs.wf(),
            r.jobs@ == Map::<Seq<char>, JobRecord>::empty(),
            r.queue@.len() == 0,
    {
        JobTable { jobs: StrMap::new(), queue: Vec::new() }
    }

    /// Submits job `job_id`: queued, with no task yet; refused, with the
    /// table unchanged, when a job with that id exists.
    pub fn submit_job(&mut self, job_id: &str) -> (r: Result<String, String>)
        requires
            old(self).jobs.wf(),
        ensures
            final(self).jobs.wf(),
            match r {
                Ok(id) => {
                    &&& !old(self).jobs@.dom().contains(job_id@)
                    &&& id@ == job_id@
                    &&& final(self).jobs@ == old(self).jobs@.insert(job_id@, JobRecord { status: JobStatus::Queued, has_task: false })
                    &&& final(self).queue@.len() == old(self).queue@.len() + 1
                    &&& final(self).queue@.last()@ == job_id@
                    &&& final(self).queue@.drop_last() == old(self).queue@
                },
                Err(e) => {
                    &&& old(self).jobs@.dom().contains(job_id@)
                    &&& e@ == "Job with ID "@ + job_id@ + " already exists"@
                    &&& final(self).jobs@ == old(self).jobs@
                    &&& final(self).queue@ == old(self).queue@
                },
            },
    {
        if self.jobs.contains_key(job_id) {
            let head = concat("Job with ID ", job_id);
            return Err(concat(head.as_str(), " already exists"));
        }
        self.jobs.insert(String::from_str(job_id), JobRecord { status: JobStatus::Queued, has_task: false });
        let ghost before = self.queue@;
        self.queue.push(String::from_str(job_id));
        assert(self.queue@.drop_last() =~= before);
        Ok(String::from_str(job_id))
    }

    /// The status of job `job_id`, if it was submitted.
    pub fn get_job_status(&self, job_id: &str) -> (r: Option<JobStatus>)
        requires
            self.jobs.wf(),
        ensures
            match r {
                Some(s) => self.jobs@.dom().contains(job_id@) && self.jobs@[job_id@].status == s,
                None => !self.jobs@.dom().contains(job_id@),
            },
    {
        match self.jobs.get(job_id) {
            Some(rec) => Some(rec.status),
            None => None,
        }
    }

    /// Sets the status of job `job_id`, when it was submitted.
    pub fn set_status(&mut self, job_id: &str, status: JobStatus)
        requires
            old(self).jobs.wf(),
        ensures
            final(self).jobs.wf(),
            final(self).queue@ == old(self).queue@,
            old(self).jobs@.dom().contains(job_id@) ==> final(self).jobs@ == old(self).jobs@.insert(
                job_id@,
                JobRecord { status, has_task: old(self).jobs@[job_id@].has_task },
            ),
            !old(self).jobs@.dom().contains(job_id@) ==> final(self).jobs@ == old(self).jobs@,
    {
        let rec = match self.jobs.get(job_id) {
            Some(rec) => *rec,
            None => {
                return;
            },
        };
        self.jobs.insert(String::from_str(job_id), JobRecord { status, has_task: rec.has_task });
    }

    /// Records that a task executes job `job_id`, when it was submitted.
    pub fn attach_task(&mut self, job_id: &str)
        requires
            old(self).jobs.wf(),
        ensures
            final(self).jobs.wf(),
            final(self).queue@ == old(self).queue@,
            old(self).jobs@.dom().contains(job_id@) ==> final(self).jobs@ == old(self).jobs@.insert(
                job_id@,
                JobRecord { status: old(self).jobs@[job_id@].status, has_task: true },
            ),
            !old(self).jobs@.dom().contains(job_id@) ==> final(self).jobs@ == old(self).jobs@,
    {
        let rec = match self.jobs.get(job_id) {
            Some(rec) => *rec,
            None => {
                return;
            },
        };
        self.jobs.insert(String::from_str(job_id), JobRecord { status: rec.status, has_task: true });
    }

    /// Cancels job `job_id`: only a running job with a task is cancelled;
    /// any other job, and an unknown id, is refused with the table unchanged.
    pub fn cancel_job(&mut self, job_id: &str) -> (r: Result<(), String>)
        requires
            old(self).jobs.wf(),
        ensures
            final(self).jobs.wf(),
            final(self).queue@ == old(self).queue@,
            !old(self).jobs@.dom().contains(job_id@) ==> {
                &&& r matches Err(e) && e@ == "Job not found: "@ + job_id@
                &&& final(self).jobs@ == old(self).jobs@
            },
            old(self).jobs@.dom().contains(job_id@) ==> {
                let rec = old(self).jobs@[job_id@];
                if rec.status == JobStatus::Running && rec.has_task {
                    &&& r is Ok
                    &&& final(self).jobs@ == old(self).jobs@.insert(job_id@, JobRecord { status: JobStatus::Cancelled, has_task: true })
                } else {
                    &&& r matches Err(e) && e@ == "Job is not running (status: "@ + status_name(rec.status) + ")"@
                    &&& final(self).jobs@ == old(self).jobs@
                }
            },
    {
        let rec = match self.jobs.get(job_id) {
            Some(rec) => *rec,
            None => {
                return Err(concat("Job not found: ", job_id));
            },
        };
        if rec.status == JobStatus::Running && rec.has_task {
            self.jobs.insert(String::from_str(job_id), JobRecord { status: JobStatus::Cancelled, has_task: true });
            return Ok(());
        }
        let head = concat("Job is not running (status: ", rec.status.name());
        Err(concat(head.as_str(), ")"))
    }
}


/// Statuses that advanced twice advanced from the first to the last.
pub proof fn law_advanced_transitive(a: Map<Seq<char>, NodeStatus>, b: Map<Seq<char>, NodeStatus>, c: Map<Seq<char>, NodeStatus>)
    requires
        advanced(a, b),
        advanced(b, c),
    ensures
        advanced(a, c),
{
    assert forall|k: Seq<char>| #[trigger] a.dom().contains(k) implies rank(a[k]) <= rank(c[k]) by {
        assert(b.dom().contains(k));
    }
}

/// A node that has been running or has finished is never ready again, so
/// `next` never executes it again.
pub proof fn law_executed_node_never_ready_again(a: Map<Seq<char>, NodeStatus>, b: Map<Seq<char>, NodeStatus>, k: Seq<char>)
    requires
        advanced(a, b),
        a.dom().contains(k),
        rank(a[k]) >= 2,
    ensures
        b.dom().contains(k),
        b[k] != NodeStatus::Ready,
{
}


/// Every input that `collected_inputs` gives comes from a data edge into
/// the node, as the output of its source on the edge's port.
proof fn lemma_collected_input_source(
    es: Seq<Edge>,
    id: Seq<char>,
    nd: Map<Seq<char>, Map<Seq<char>, JsonView>>,
    port: Seq<char>,
)
    requires
        collected_inputs(es, id, nd).dom().contains(port),
    ensures
        exists|i: int| 0 <= i < es.len() && (#[trigger] es[i]).to@ == id && es[i].to_port@ == port
            && es[i].to_port@ != "trigger"@
            && nd.dom().contains(es[i].from@) && nd[es[i].from@].dom().contains(es[i].from_port@)
            && collected_inputs(es, id, nd)[port] == nd[es[i].from@][es[i].from_port@],
    decreases es.len(),
{
    let init = es.drop_last();
    let e = es.last();
    let last = es.len() - 1;
    if e.to@ == id && e.to_port@ != "trigger"@ && nd.dom().contains(e.from@) && nd[e.from@].dom().contains(e.from_port@) && e.to_port@ == port {
        assert(es[last].to@ == id);
    } else {
        lemma_collected_input_source(init, id, nd, port);
        let i = choose|i: int| 0 <= i < init.len() && (#[trigger] init[i]).to@ == id && init[i].to_port@ == port
            && init[i].to_port@ != "trigger"@
            && nd.dom().contains(init[i].from@) && nd[init[i].from@].dom().contains(init[i].from_port@)
            && collected_inputs(init, id, nd)[port] == nd[init[i].from@][init[i].from_port@];
        assert(es[i] == init[i]);
    }
}

/// Each input a node is executed with is the output, on the port of a data
/// edge into the node, of that edge's source, and that source succeeded.
pub proof fn law_inputs_come_from_succeeded_nodes(run: JobRun, job: Job, id: Seq<char>, port: Seq<char>)
    requires
        run.wf_for(job),
        collected_inputs(job.edges@, id, run.data()).dom().contains(port),
    ensures
        exists|i: int| 0 <= i < job.edges@.len() && (#[trigger] job.edges@[i]).to@ == id && job.edges@[i].to_port@ == port
            && run.statuses@.dom().contains(job.edges@[i].from@)
            && run.statuses@[job.edges@[i].from@] == NodeStatus::Success
            && collected_inputs(job.edges@, id, run.data())[port]
                == run.data()[job.edges@[i].from@][job.edges@[i].from_port@],
{
    lemma_collected_input_source(job.edges@, id, run.data(), port);
    let es = job.edges@;
    let nd = run.data();
    let i = choose|i: int| 0 <= i < es.len() && (#[trigger] es[i]).to@ == id && es[i].to_port@ == port
        && es[i].to_port@ != "trigger"@
        && nd.dom().contains(es[i].from@) && nd[es[i].from@].dom().contains(es[i].from_port@)
        && collected_inputs(es, id, nd)[port] == nd[es[i].from@][es[i].from_port@];
    assert(run.node_data@.dom().contains(es[i].from@));
}


/// A job that was just submitted reads back as queued, without a task.
pub proof fn law_submitted_job_is_queued(before: JobTable, after: JobTable, job_id: Seq<char>)
    requires
        after.jobs@ == before.jobs@.insert(job_id, JobRecord { status: JobStatus::Queued, has_task: false }),
    ensures
        after.jobs@.dom().contains(job_id),
        after.jobs@[job_id].status == JobStatus::Queued,
        !after.jobs@[job_id].has_task,
{
}

/// A cancelled job is no longer running, so cancelling it again is refused.
pub proof fn law_cancelled_job_cannot_be_cancelled_again(before: JobTable, after: JobTable, job_id: Seq<char>)
    requires
        after.jobs@ == before.jobs@.insert(job_id, JobRecord { status: JobStatus::Cancelled, has_task: true }),
    ensures
        !(after.jobs@[job_id].status == JobStatus::Running && after.jobs@[job_id].has_task),
{
}


/// The work left of a run is between none and twice its number of nodes;
/// since each executed step lowers it by one, a run takes at most twice as
/// many steps as it has nodes.
pub proof fn law_work_left_is_bounded(st: Map<Seq<char>, NodeStatus>)
    requires
        st.dom().finite(),
    ensures
        0 <= work_left(st) <= 2 * st.dom().len(),
{
    vstd::set_lib::lemma_len_subset(running_nodes(st), unfinished_nodes(st));
    vstd::set_lib::lemma_len_subset(unfinished_nodes(st), st.dom());
}


/// Statuses that advance at each step of a run advance over any stretch of it.
proof fn lemma_advanced_along(trace: Seq<Map<Seq<char>, NodeStatus>>, a: int, b: int)
    requires
        forall|t: int| 0 <= t < trace.len() - 1 ==> advanced(#[trigger] trace[t], trace[t + 1]),
        0 <= a <= b < trace.len(),
    ensures
        advanced(trace[a], trace[b]),
    decreases b - a,
{
    if a < b {
        lemma_advanced_along(trace, a, b - 1);
        assert(advanced(trace[b - 1], trace[b]));
        law_advanced_transitive(trace[a], trace[b - 1], trace[b]);
    }
}

/// Along a run whose statuses advance at each step (as `next` and
/// `complete` ensure), no node is executed twice: once it went from ready
/// to running, it never does so again.
pub proof fn law_no_node_runs_twice(trace: Seq<Map<Seq<char>, NodeStatus>>, i: int, j: int, k: Seq<char>)
    requires
        forall|t: int| 0 <= t < trace.len() - 1 ==> advanced(#[trigger] trace[t], trace[t + 1]),
        0 <= i < j,
        j + 1 < trace.len(),
        trace[i].dom().contains(k),
        trace[i][k] == NodeStatus::Ready,
        trace[i + 1][k] == NodeStatus::Running,
    ensures
        !(trace[j][k] == NodeStatus::Ready && trace[j + 1][k] == NodeStatus::Running),
{
    assert(advanced(trace[i], trace[i + 1]));
    lemma_advanced_along(trace, i + 1, j);
    law_executed_node_never_ready_again(trace[i + 1], trace[j], k);
}


/// An event of a job run, as its statuses see it.
pub enum RunEvent {
    /// `next` executed the node.
    Executed(Seq<char>),
    /// `complete` recorded the node's result: success (`true`) or failure.
    Completed(Seq<char>, bool),
}

/// The port a result leaves by.
pub open spec fn port_of(ok: bool) -> Seq<char> {
    if ok {
        "success"@
    } else {
        "failure"@
    }
}

/// The status a result gives.
pub open spec fn status_of(ok: bool) -> NodeStatus {
    if ok {
        NodeStatus::Success
    } else {
        NodeStatus::Failure
    }
}

/// One event of a run takes statuses `a` to `b`, with outputs `nd` after it.
pub open spec fn run_step(
    es: Seq<Edge>,
    a: Map<Seq<char>, NodeStatus>,
    ev: RunEvent,
    nd: Map<Seq<char>, Map<Seq<char>, JsonView>>,
    b: Map<Seq<char>, NodeStatus>,
) -> bool {
    match ev {
        RunEvent::Executed(k) => a.dom().contains(k) && a[k] == NodeStatus::Ready && b == a.insert(k, NodeStatus::Running),
        RunEvent::Completed(k, ok) => a.dom().contains(k) && a[k] == NodeStatus::Running
            && b == after_completion(es, k, port_of(ok), a.insert(k, status_of(ok)), nd, es),
    }
}

/// Node `k` was made ready by the start of the run or, before event `t`, by
/// the completion of a node with a control edge into `k` from the port that
/// completion left by.
pub open spec fn triggered(ns: Seq<Node>, es: Seq<Edge>, evs: Seq<RunEvent>, t: int, k: Seq<char>) -> bool {
    ||| start_ids(ns).contains(k)
    ||| exists|t2: int, i: int| 0 <= t2 < t && 0 <= i < es.len() && #[trigger] completion_edge(evs[t2], es[i], k)
}

/// Event `ev` is the completion of the source of `e`, a control edge into
/// `k`, by the port `e` leaves from.
pub open spec fn completion_edge(ev: RunEvent, e: Edge, k: Seq<char>) -> bool {
    match ev {
        RunEvent::Completed(f, ok) => e.from@ == f && e.from_port@ == port_of(ok) && e.to@ == k && e.to_port@ == "trigger"@,
        RunEvent::Executed(_) => false,
    }
}

/// A node that leaving a port made ready has a control edge into it from
/// that port.
proof fn lemma_readied_by_edge(
    es: Seq<Edge>,
    id: Seq<char>,
    port: Seq<char>,
    st: Map<Seq<char>, NodeStatus>,
    nd: Map<Seq<char>, Map<Seq<char>, JsonView>>,
    all: Seq<Edge>,
    k: Seq<char>,
)
    requires
        st.dom().contains(k),
        st[k] != NodeStatus::Ready,
        after_completion(es, id, port, st, nd, all)[k] == NodeStatus::Ready,
    ensures
        exists|i: int| 0 <= i < es.len() && (#[trigger] es[i]).from@ == id && es[i].from_port@ == port
            && es[i].to@ == k && es[i].to_port@ == "trigger"@,
    decreases es.len(),
{
    let cur = after_completion(es.drop_last(), id, port, st, nd, all);
    if es.len() > 0 {
        if cur[k] == NodeStatus::Ready {
            lemma_readied_by_edge(es.drop_last(), id, port, st, nd, all, k);
            let i = choose|i: int| 0 <= i < es.drop_last().len() && (#[trigger] es.drop_last()[i]).from@ == id
                && es.drop_last()[i].from_port@ == port && es.drop_last()[i].to@ == k && es.drop_last()[i].to_port@ == "trigger"@;
            assert(es[i] == es.drop_last()[i]);
        } else {
            assert(es[es.len() - 1].to@ == k);
        }
    }
}

/// One event of a run only advances statuses.
proof fn lemma_run_step_advances(
    es: Seq<Edge>,
    a: Map<Seq<char>, NodeStatus>,
    ev: RunEvent,
    nd: Map<Seq<char>, Map<Seq<char>, JsonView>>,
    b: Map<Seq<char>, NodeStatus>,
)
    requires
        run_step(es, a, ev, nd, b),
    ensures
        advanced(a, b),
{
    match ev {
        RunEvent::Executed(k) => {
            assert(b.dom() =~= a.dom());
        },
        RunEvent::Completed(k, ok) => {
            let st0 = a.insert(k, status_of(ok));
            lemma_after_completion_only_readies(es, k, port_of(ok), st0, nd, es);
            assert(st0.dom() =~= a.dom());
        },
    }
}

/// Every node that is ready at some point of a run was triggered.
proof fn lemma_ready_was_triggered(
    ns: Seq<Node>,
    es: Seq<Edge>,
    sts: Seq<Map<Seq<char>, NodeStatus>>,
    evs: Seq<RunEvent>,
    nds: Seq<Map<Seq<char>, Map<Seq<char>, JsonView>>>,
    t: int,
    k: Seq<char>,
)
    requires
        sts.len() == evs.len() + 1,
        nds.len() == evs.len(),
        sts[0] == initial_statuses(ns),
        forall|u: int| 0 <= u < evs.len() ==> run_step(es, sts[u], #[trigger] evs[u], nds[u], sts[u + 1]),
        0 <= t < sts.len(),
        sts[t].dom().contains(k),
        sts[t][k] == NodeStatus::Ready,
    ensures
        triggered(ns, es, evs, t, k),
    decreases t,
{
    if t > 0 {
        let a = sts[t - 1];
        let b = sts[t];
        assert(run_step(es, a, evs[t - 1], nds[t - 1], b));
        lemma_run_step_advances(es, a, evs[t - 1], nds[t - 1], b);
        if a[k] == NodeStatus::Ready {
            lemma_ready_was_triggered(ns, es, sts, evs, nds, t - 1, k);
            if !start_ids(ns).contains(k) {
                let (t2, i) = choose|t2: int, i: int| 0 <= t2 < t - 1 && 0 <= i < es.len() && #[trigger] completion_edge(evs[t2], es[i], k);
                assert(completion_edge(evs[t2], es[i], k));
            }
        } else {
            match evs[t - 1] {
                RunEvent::Executed(j) => {
                    assert(k != j);
                },
                RunEvent::Completed(f, ok) => {
                    let st0 = a.insert(f, status_of(ok));
                    lemma_readied_by_edge(es, f, port_of(ok), st0, nds[t - 1], es, k);
                    let i = choose|i: int| 0 <= i < es.len() && (#[trigger] es[i]).from@ == f && es[i].from_port@ == port_of(ok)
                        && es[i].to@ == k && es[i].to_port@ == "trigger"@;
                    assert(completion_edge(evs[t - 1], es[i], k));
                },
            }
        }
    }
}

/// The trace of a job run: the order in which it executes nodes. Take the
/// statuses a run goes through, from those `JobRun::start` sets up and then
/// one per event: `JobRun::next` executing a node, or `JobRun::complete`
/// recording a node's result, success or failure (each ensures `run_step`).
/// Then the first event executes a start node; no node is executed twice;
/// and every node executed is a start node or was made ready, earlier in
/// the trace, by the completion of a node with a control edge from it into
/// the node's `trigger`, leaving by `success` when that node succeeded and
/// by `failure` when it failed.
pub proof fn law_job_run_trace(
    ns: Seq<Node>,
    es: Seq<Edge>,
    sts: Seq<Map<Seq<char>, NodeStatus>>,
    evs: Seq<RunEvent>,
    nds: Seq<Map<Seq<char>, Map<Seq<char>, JsonView>>>,
)
    requires
        sts.len() == evs.len() + 1,
        nds.len() == evs.len(),
        sts[0] == initial_statuses(ns),
        forall|u: int| 0 <= u < evs.len() ==> run_step(es, sts[u], #[trigger] evs[u], nds[u], sts[u + 1]),
    ensures
        evs.len() > 0 ==> (evs[0] matches RunEvent::Executed(k) && start_ids(ns).contains(k)),
        forall|t1: int, t2: int| 0 <= t1 < t2 < evs.len() && #[trigger] evs[t1] is Executed && #[trigger] evs[t2] is Executed
            ==> evs[t1]->Executed_0 != evs[t2]->Executed_0,
        forall|t: int| 0 <= t < evs.len() && (#[trigger] evs[t]) is Executed ==> triggered(ns, es, evs, t, evs[t]->Executed_0),
{
    if evs.len() > 0 {
        assert(run_step(es, sts[0], evs[0], nds[0], sts[1]));
        match evs[0] {
            RunEvent::Executed(k) => {},
            RunEvent::Completed(k, ok) => {
                assert(sts[0][k] == NodeStatus::Ready || sts[0][k] == NodeStatus::Pending);
            },
        }
    }
    assert forall|t: int| 0 <= t < sts.len() - 1 implies advanced(#[trigger] sts[t], sts[t + 1]) by {
        assert(run_step(es, sts[t], evs[t], nds[t], sts[t + 1]));
        lemma_run_step_advances(es, sts[t], evs[t], nds[t], sts[t + 1]);
    }
    assert forall|t1: int, t2: int| 0 <= t1 < t2 < evs.len() && #[trigger] evs[t1] is Executed && #[trigger] evs[t2] is Executed
        implies evs[t1]->Executed_0 != evs[t2]->Executed_0 by {
        let k = evs[t1]->Executed_0;
        assert(run_step(es, sts[t1], evs[t1], nds[t1], sts[t1 + 1]));
        assert(run_step(es, sts[t2], evs[t2], nds[t2], sts[t2 + 1]));
        if evs[t2]->Executed_0 == k {
            law_no_node_runs_twice(sts, t1, t2, k);
        }
    }
    assert forall|t: int| 0 <= t < evs.len() && (#[trigger] evs[t]) is Executed implies triggered(ns, es, evs, t, evs[t]->Executed_0) by {
        assert(run_step(es, sts[t], evs[t], nds[t], sts[t + 1]));
        lemma_ready_was_triggered(ns, es, sts, evs, nds, t, evs[t]->Executed_0);
    }
}

} // verus!
