//! Driving a workflow graph, one decision at a time. A node is driven by
//! first driving the upstream nodes of its data edges and copying their
//! outputs into its inputs, then running it, then driving the node that
//! control passes to on its outcome. What needs the outside world (asking
//! whether the run was cancelled, running a node's process) is handed back
//! to the caller as an action, and its answer comes back as an event.

use vstd::prelude::*;
use crate::engine::EngineEvent;
use crate::graph::{Graph, NodeState, Status, LineEffect, line_read, read_output_line};
use crate::json_text::json_text_parse;
use crate::json::{JsonMap, JsonView, map_view};
use crate::specs::{EdgeDefinition, NodeSpec};
use crate::plugin::texts;
use crate::strmap::StrMap;
use crate::text::concat;

verus! {

/// A pending part of the recursive drive of the graph.
#[derive(Debug)]
pub enum Frame {
    /// The node is about to be driven.
    Enter { node_id: String },
    /// The node waits for the answer to whether the run was cancelled.
    AwaitCancel { node_id: String },
    /// The node gathers its data inputs; `next` is the position of the next
    /// data edge into it.
    Inputs { node_id: String, next: usize },
    /// The node waits for the result of its run.
    AwaitRun { node_id: String },
    /// The node ran with `status`; the node that control passed to is being
    /// driven, after which the node's drive ends with `status`.
    Successor { node_id: String, status: Status },
}

/// What the caller learnt since the last step.
#[derive(Debug)]
pub enum DriveEvent {
    /// Nothing: the last action was `Continue`.
    Proceed,
    /// Whether a cancellation was received.
    CancelChecked(bool),
    /// The node's process ended with this status and these outputs.
    Ran { status: Status, outputs: JsonMap },
}

/// What the caller is to do next.
#[derive(Debug)]
pub enum DriveAction {
    /// Take the next step.
    Continue,
    /// Check whether a cancellation was received, and answer with `CancelChecked`.
    CheckCancel,
    /// Run the node's process with its executor, specification and inputs,
    /// and answer with `Ran`.
    Run { node_id: String },
    /// The drive is over; the start node ended with this status.
    Finished(Status),
}

/// A drive of a graph in progress: the pending frames, innermost last, and
/// the status that the innermost finished drive ended with, not yet taken.
#[derive(Debug)]
pub struct Drive {
    pub workflow_id: String,
    pub stack: Vec<Frame>,
    pub ret: Option<Status>,
}

/// The name a status is shown by.
pub open spec fn status_name(s: Status) -> Seq<char> {
    match s {
        Status::NotStarted => "NotStarted"@,
        Status::Running => "Running"@,
        Status::Success => "Success"@,
        Status::Failed => "Failed"@,
    }
}

impl Status {
    /// The name this status is shown by.
    pub fn name(&self) -> (r: &'static str)
        ensures
            r@ == status_name(*self),
    {
        match self {
            Status::NotStarted => "NotStarted",
            Status::Running => "Running",
            Status::Success => "Success",
            Status::Failed => "Failed",
        }
    }
}

/// The data edges into node `k` of the graph.
pub open spec fn edges_into(g: Graph, k: Seq<char>) -> Seq<EdgeDefinition> {
    if g.data_edges@.dom().contains(k) {
        g.data_edges@[k]@
    } else {
        Seq::empty()
    }
}

/// The state `st` with status `s`.
pub open spec fn with_status(st: NodeState, s: Status) -> NodeState {
    NodeState { spec: st.spec, executor: st.executor, inputs: st.inputs, outputs: st.outputs, status: s }
}

/// The node states `m` with node `k`, if it is there, set to status `s`.
pub open spec fn status_set(m: Map<Seq<char>, NodeState>, k: Seq<char>, s: Status) -> Map<Seq<char>, NodeState> {
    if m.dom().contains(k) {
        m.insert(k, with_status(m[k], s))
    } else {
        m
    }
}

impl Drive {
    /// A drive in a consistent state for graph `g`: an empty stack only with
    /// a status to hand back; a frame that awaits a return only under a
    /// finished drive; a node past its entry is a node of the graph; an
    /// edge position within the node's data edges.
    pub open spec fn wf_in(&self, g: Graph) -> bool {
        &&& self.stack@.len() == 0 ==> self.ret is Some
        &&& self.stack@.len() > 0 ==> match self.stack@.last() {
            Frame::Successor { .. } => self.ret is Some,
            Frame::Inputs { node_id, next } => self.ret is Some ==> next < edges_into(g, node_id@).len(),
            _ => self.ret is None,
        }
        &&& forall|i: int| 0 <= i < self.stack@.len() ==> match #[trigger] self.stack@[i] {
            Frame::Enter { .. } => i == self.stack@.len() - 1,
            Frame::Inputs { node_id, next } => g.nodes@.dom().contains(node_id@) && next <= edges_into(g, node_id@).len()
                && (i < self.stack@.len() - 1 ==> next < edges_into(g, node_id@).len()),
            Frame::AwaitCancel { node_id } => g.nodes@.dom().contains(node_id@) && i == self.stack@.len() - 1,
            Frame::AwaitRun { node_id } => g.nodes@.dom().contains(node_id@) && i == self.stack@.len() - 1
                && g.nodes@[node_id@].status == Status::Running,
            Frame::Successor { node_id, .. } => g.nodes@.dom().contains(node_id@),
        }
    }
}

impl Graph {
    /// Sets the status of node `k`, when it is a node of the graph.
    fn set_node_status(&mut self, k: &str, s: Status)
        requires
            old(self).wf(),
        ensures
            final(self).wf(),
            final(self).nodes@ == status_set(old(self).nodes@, k@, s),
            final(self).data_edges == old(self).data_edges,
            final(self).control_edges == old(self).control_edges,
    {
        match self.nodes.remove(k) {
            Some(st) => {
                let NodeState { spec, executor, inputs, outputs, status: _ } = st;
                self.nodes.insert(String::from_str(k), NodeState { spec, executor, inputs, outputs, status: s });
                assert(self.nodes@ =~= status_set(old(self).nodes@, k@, s));
            },
            None => {
                assert(self.nodes@ =~= status_set(old(self).nodes@, k@, s));
            },
        }
    }
}

/// A frame by content.
pub enum FrameView {
    Enter(Seq<char>),
    AwaitCancel(Seq<char>),
    Inputs(Seq<char>, nat),
    AwaitRun(Seq<char>),
    Successor(Seq<char>, Status),
}

impl View for Frame {
    type V = FrameView;

    open spec fn view(&self) -> FrameView {
        match self {
            Frame::Enter { node_id } => FrameView::Enter(node_id@),
            Frame::AwaitCancel { node_id } => FrameView::AwaitCancel(node_id@),
            Frame::Inputs { node_id, next } => FrameView::Inputs(node_id@, *next as nat),
            Frame::AwaitRun { node_id } => FrameView::AwaitRun(node_id@),
            Frame::Successor { node_id, status } => FrameView::Successor(node_id@, *status),
        }
    }
}

/// A stack of frames by content.
pub open spec fn frames(s: Seq<Frame>) -> Seq<FrameView> {
    s.map_values(|f: Frame| f@)
}

proof fn lemma_frames_push(s: Seq<Frame>, f: Frame)
    ensures
        frames(s.push(f)) == frames(s).push(f@),
{
    assert(frames(s.push(f)) =~= frames(s).push(f@));
}

proof fn lemma_frames_drop_last(s: Seq<Frame>)
    requires
        s.len() > 0,
    ensures
        frames(s.drop_last()) == frames(s).drop_last(),
        frames(s).last() == s.last()@,
{
    assert(frames(s.drop_last()) =~= frames(s).drop_last());
}

/// One announcement `ev` about node `k` of workflow `w`: an error with message `msg`.
pub open spec fn is_node_error(ev: EngineEvent, w: Seq<char>, k: Seq<char>, msg: Seq<char>) -> bool {
    ev matches EngineEvent::NodeError { workflow_id, node_id, error } && workflow_id@ == w && node_id@ == k && error@ == msg
}

/// One announcement `ev` about node `k` of workflow `w`: an `info` log with message `msg`.
pub open spec fn is_info_log(ev: EngineEvent, w: Seq<char>, k: Seq<char>, msg: Seq<char>) -> bool {
    ev matches EngineEvent::NodeLog { workflow_id, node_id, level, message } && workflow_id@ == w && node_id@ == k
        && level@ == "info"@ && message@ == msg
}

/// One announcement `ev` that workflow `w` finished without success.
pub open spec fn is_failed_finish(ev: EngineEvent, w: Seq<char>) -> bool {
    ev matches EngineEvent::WorkflowFinished { workflow_id, is_success } && workflow_id@ == w && !is_success
}


/// Node `k` has an output on `port`.
pub open spec fn has_output(n: Map<Seq<char>, NodeState>, k: Seq<char>, port: Seq<char>) -> bool {
    &&& n.dom().contains(k)
    &&& n[k].outputs is Some
    &&& n[k].outputs->Some_0@.dom().contains(port)
}

/// The output of node `k` on `port`.
pub open spec fn output_of(n: Map<Seq<char>, NodeState>, k: Seq<char>, port: Seq<char>) -> JsonView {
    n[k].outputs->Some_0@[port]@
}

/// `b` is `a` with value `v` copied into input `port` of node `k`.
pub open spec fn input_added(a: Map<Seq<char>, NodeState>, b: Map<Seq<char>, NodeState>, k: Seq<char>, port: Seq<char>, v: JsonView) -> bool {
    &&& b.dom() == a.dom()
    &&& forall|j: Seq<char>| #[trigger] b.dom().contains(j) && j != k ==> b[j] == a[j]
    &&& b[k].status == a[k].status
    &&& b[k].outputs == a[k].outputs
    &&& b[k].spec == a[k].spec
    &&& b[k].executor == a[k].executor
    &&& map_view(b[k].inputs@) == map_view(a[k].inputs@).insert(port, v)
}

/// The outcome a node's status leads to along control edges.
pub open spec fn outcome_of(s: Status) -> Seq<char> {
    if s == Status::Success {
        "__success__"@
    } else {
        "__failure__"@
    }
}

/// One step of the drive, from graph `g` and drive `d` on event `ev`, to
/// graph `g2` and drive `d2` with action `act` and announcements `evs`.
pub open spec fn step_taken(
    g: Graph,
    d: Drive,
    ev: DriveEvent,
    g2: Graph,
    d2: Drive,
    act: DriveAction,
    evs: Seq<EngineEvent>,
) -> bool {
    let w = d.workflow_id@;
    let st = frames(d.stack@);
    let below = st.drop_last();
    let n = g.nodes@;
    let unchanged = g2.nodes@ == n && frames(d2.stack@) == st && d2.ret == d.ret && evs.len() == 0;
    match d.ret {
        Some(s) => if st.len() == 0 {
            unchanged && act == DriveAction::Finished(s)
        } else {
            match st.last() {
                // The successor's drive ended: the node's own drive ends with its status.
                FrameView::Successor(id, s0) => {
                    &&& act is Continue
                    &&& evs.len() == 0
                    &&& g2.nodes@ == n
                    &&& frames(d2.stack@) == below
                    &&& d2.ret == Some(s0)
                },
                // An upstream node's drive ended: take its output, or fail.
                FrameView::Inputs(id, i) => {
                    let e = edges_into(g, id)[i as int];
                    &&& act is Continue
                    &&& if s != Status::Success {
                        &&& evs.len() == 0
                        &&& g2.nodes@ == status_set(n, id, Status::Failed)
                        &&& frames(d2.stack@) == below
                        &&& d2.ret == Some(Status::Failed)
                    } else if has_output(n, e.from_node@, e.from_output@) {
                        &&& evs.len() == 0
                        &&& input_added(n, g2.nodes@, id, e.to_input@, output_of(n, e.from_node@, e.from_output@))
                        &&& frames(d2.stack@) == below.push(FrameView::Inputs(id, i + 1))
                        &&& d2.ret is None
                    } else {
                        &&& evs.len() == 1
                        &&& is_node_error(evs[0], w, id, "Upstream node `"@ + e.from_node@ + "` produced no output `"@ + e.from_output@ + "`"@)
                        &&& g2.nodes@ == status_set(n, id, Status::Failed)
                        &&& frames(d2.stack@) == below
                        &&& d2.ret == Some(Status::Failed)
                    }
                },
                _ => false,
            }
        },
        None => match st.last() {
            FrameView::Enter(id) => if !n.dom().contains(id) {
                &&& act is Continue
                &&& evs.len() == 1
                &&& is_node_error(evs[0], w, id, "Unknown node_id `"@ + id + "`"@)
                &&& g2.nodes@ == n
                &&& frames(d2.stack@) == below
                &&& d2.ret == Some(Status::Failed)
            } else if n[id].status != Status::NotStarted {
                &&& act is Continue
                &&& evs.len() == 0
                &&& g2.nodes@ == n
                &&& frames(d2.stack@) == below
                &&& d2.ret == Some(n[id].status)
            } else {
                &&& act is CheckCancel
                &&& evs.len() == 0
                &&& g2.nodes@ == n
                &&& frames(d2.stack@) == below.push(FrameView::AwaitCancel(id))
                &&& d2.ret is None
            },
            FrameView::AwaitCancel(id) => match ev {
                DriveEvent::CancelChecked(true) => {
                    &&& act is Continue
                    &&& evs.len() == 1
                    &&& is_failed_finish(evs[0], w)
                    &&& g2.nodes@ == status_set(n, id, Status::Failed)
                    &&& frames(d2.stack@) == below
                    &&& d2.ret == Some(Status::Failed)
                },
                DriveEvent::CancelChecked(false) => {
                    &&& act is Continue
                    &&& evs.len() == 0
                    &&& g2.nodes@ == n
                    &&& frames(d2.stack@) == below.push(FrameView::Inputs(id, 0))
                    &&& d2.ret is None
                },
                _ => unchanged && act is CheckCancel,
            },
            FrameView::Inputs(id, i) => if i < edges_into(g, id).len() {
                &&& act is Continue
                &&& evs.len() == 0
                &&& g2.nodes@ == n
                &&& frames(d2.stack@) == st.push(FrameView::Enter(edges_into(g, id)[i as int].from_node@))
                &&& d2.ret is None
            } else {
                &&& act matches DriveAction::Run { node_id } && node_id@ == id
                &&& evs.len() == 1
                &&& is_info_log(evs[0], w, id, "Executing "@ + id)
                &&& g2.nodes@ == status_set(n, id, Status::Running)
                &&& frames(d2.stack@) == below.push(FrameView::AwaitRun(id))
                &&& d2.ret is None
            },
            FrameView::AwaitRun(id) => match ev {
                DriveEvent::Ran { status, outputs } => {
                    &&& act is Continue
                    &&& evs.len() == 1
                    &&& is_info_log(evs[0], w, id, "Finished "@ + id + " with "@ + status_name(status))
                    &&& g2.nodes@ == n.insert(id, NodeState {
                        spec: n[id].spec,
                        executor: n[id].executor,
                        inputs: n[id].inputs,
                        outputs: Some(outputs),
                        status,
                    })
                    &&& match g.control_target_spec(id, outcome_of(status)) {
                        Some(next) => {
                            &&& frames(d2.stack@) == below.push(FrameView::Successor(id, status)).push(FrameView::Enter(next))
                            &&& d2.ret is None
                        },
                        None => {
                            &&& frames(d2.stack@) == below
                            &&& d2.ret == Some(status)
                        },
                    }
                },
                _ => unchanged && (act matches DriveAction::Run { node_id } && node_id@ == id),
            },
            _ => false,
        },
    }
}

impl Graph {
    /// Begins driving the graph from its start node; without a start node,
    /// no drive and the announcement that the workflow failed.
    pub fn begin_execute(&self, workflow_id: String) -> (r: (Option<Drive>, Vec<EngineEvent>))
        requires
            self.wf(),
        ensures
            match r.0 {
                Some(d) => {
                    &&& d.workflow_id@ == workflow_id@
                    &&& d.ret is None
                    &&& d.stack@.len() == 1
                    &&& d.stack@[0] matches Frame::Enter { node_id } && self.nodes@.dom().contains(node_id@)
                        && self.nodes@[node_id@].spec.node_fqdn@ == "sys:start"@
                    &&& d.wf_in(*self)
                    &&& r.1@.len() == 0
                },
                None => {
                    &&& forall|k: Seq<char>| #[trigger] self.nodes@.dom().contains(k) ==> self.nodes@[k].spec.node_fqdn@ != "sys:start"@
                    &&& r.1@.len() == 1
                    &&& is_failed_finish(r.1@[0], workflow_id@)
                },
            },
    {
        let mut events: Vec<EngineEvent> = Vec::new();
        match self.get_start_id() {
            Ok(id) => {
                let mut stack: Vec<Frame> = Vec::new();
                stack.push(Frame::Enter { node_id: id.clone() });
                (Some(Drive { workflow_id, stack, ret: None }), events)
            },
            Err(_) => {
                events.push(EngineEvent::WorkflowFinished { workflow_id, is_success: false });
                (None, events)
            },
        }
    }

    /// Copies value `v` into input `port` of node `k`, a node of the graph.
    fn add_input(&mut self, k: &str, port: String, v: crate::json::JsonValue)
        requires
            old(self).wf(),
            old(self).nodes@.dom().contains(k@),
        ensures
            final(self).wf(),
            final(self).data_edges == old(self).data_edges,
            final(self).control_edges == old(self).control_edges,
            final(self).nodes@.dom() == old(self).nodes@.dom(),
            forall|j: Seq<char>| #[trigger] final(self).nodes@.dom().contains(j) && j != k@ ==> final(self).nodes@[j] == old(self).nodes@[j],
            final(self).nodes@[k@].status == old(self).nodes@[k@].status,
            final(self).nodes@[k@].outputs == old(self).nodes@[k@].outputs,
            final(self).nodes@[k@].spec == old(self).nodes@[k@].spec,
            final(self).nodes@[k@].executor == old(self).nodes@[k@].executor,
            map_view(final(self).nodes@[k@].inputs@) == map_view(old(self).nodes@[k@].inputs@).insert(port@, v@),
    {
        let st = self.nodes.remove(k).unwrap();
        let NodeState { spec, executor, mut inputs, outputs, status } = st;
        inputs.insert(port, v);
        self.nodes.insert(String::from_str(k), NodeState { spec, executor, inputs, outputs, status });
        assert(map_view(self.nodes@[k@].inputs@) =~= map_view(old(self).nodes@[k@].inputs@).insert(port@, v@));
    }

    /// Records the status and outputs of node `k`, a node of the graph.
    fn record_run(&mut self, k: &str, status: Status, outputs: JsonMap)
        requires
            old(self).wf(),
            old(self).nodes@.dom().contains(k@),
            outputs.wf(),
        ensures
            final(self).wf(),
            final(self).data_edges == old(self).data_edges,
            final(self).control_edges == old(self).control_edges,
            final(self).nodes@ == old(self).nodes@.insert(k@, NodeState {
                spec: old(self).nodes@[k@].spec,
                executor: old(self).nodes@[k@].executor,
                inputs: old(self).nodes@[k@].inputs,
                outputs: Some(outputs),
                status,
            }),
    {
        let st = self.nodes.remove(k).unwrap();
        let NodeState { spec, executor, inputs, outputs: _, status: _ } = st;
        self.nodes.insert(String::from_str(k), NodeState { spec, executor, inputs, outputs: Some(outputs), status });
        assert(self.nodes@ =~= old(self).nodes@.insert(k@, NodeState {
            spec: old(self).nodes@[k@].spec,
            executor: old(self).nodes@[k@].executor,
            inputs: old(self).nodes@[k@].inputs,
            outputs: Some(outputs),
            status,
        }));
    }
}


impl Graph {
    /// The data edge at position `i` into node `k`, by copy.
    fn data_edge_at(&self, k: &str, i: usize) -> (r: EdgeDefinition)
        requires
            self.wf(),
            i < edges_into(*self, k@).len(),
        ensures
            r == edges_into(*self, k@)[i as int],
            edges_into(*self, k@).len() <= usize::MAX,
    {
        let es = self.data_edges.get(k).unwrap();
        let _n = es.len();
        es[i].copy()
    }

    /// The number of data edges into node `k`.
    fn data_edge_count(&self, k: &str) -> (r: usize)
        requires
            self.wf(),
        ensures
            r == edges_into(*self, k@).len(),
    {
        match self.data_edges.get(k) {
            Some(es) => es.len(),
            None => 0,
        }
    }

    /// The output of node `k` on `port`, by copy, if it has one.
    fn output_copy(&self, k: &str, port: &str) -> (r: Option<crate::json::JsonValue>)
        requires
            self.wf(),
        ensures
            match r {
                Some(v) => has_output(self.nodes@, k@, port@) && v@ == output_of(self.nodes@, k@, port@),
                None => !has_output(self.nodes@, k@, port@),
            },
    {
        match self.nodes.get(k) {
            Some(st) => match &st.outputs {
                Some(o) => match o.get(port) {
                    Some(v) => Some(v.deep_copy()),
                    None => None,
                },
                None => None,
            },
            None => None,
        }
    }

    /// One step of the drive `d` of this graph on event `ev`: see
    /// `step_taken` for what each frame does.
    #[verifier::spinoff_prover]
    #[verifier::rlimit(50)]
    pub fn drive_step(&mut self, d: &mut Drive, ev: DriveEvent) -> (r: (DriveAction, Vec<EngineEvent>))
        requires
            old(self).wf(),
            old(d).wf_in(*old(self)),
            ev matches DriveEvent::Ran { outputs, .. } ==> outputs.wf(),
            ev matches DriveEvent::Ran { status, .. } ==> status == Status::Success || status == Status::Failed,
        ensures
            final(self).wf(),
            final(d).wf_in(*final(self)),
            final(self).data_edges == old(self).data_edges,
            final(self).control_edges == old(self).control_edges,
            final(self).nodes@.dom() == old(self).nodes@.dom(),
            final(d).workflow_id == old(d).workflow_id,
            step_taken(*old(self), *old(d), ev, *final(self), *final(d), r.0, r.1@),
    {
        let ghost g0 = *self;
        let ghost d0 = *d;
        let mut evs: Vec<EngineEvent> = Vec::new();
        if d.stack.len() == 0 {
            let s = d.ret.unwrap();
            return (DriveAction::Finished(s), evs);
        }
        proof {
            lemma_frames_drop_last(d.stack@);
        }
        let top = d.stack.pop().unwrap();
        match d.ret {
            Some(s) => match top {
                Frame::Successor { node_id: _, status } => {
                    d.ret = Some(status);
                    (DriveAction::Continue, evs)
                },
                Frame::Inputs { node_id, next } => {
                    if s != Status::Success {
                        self.set_node_status(node_id.as_str(), Status::Failed);
                        d.ret = Some(Status::Failed);
                        return (DriveAction::Continue, evs);
                    }
                    let e = self.data_edge_at(node_id.as_str(), next);
                    match self.output_copy(e.from_node.as_str(), e.from_output.as_str()) {
                        Some(v) => {
                            self.add_input(node_id.as_str(), e.to_input, v);
                            let f = Frame::Inputs { node_id, next: next + 1 };
                            proof {
                                lemma_frames_push(d.stack@, f);
                            }
                            d.stack.push(f);
                            d.ret = None;
                            (DriveAction::Continue, evs)
                        },
                        None => {
                            let m1 = concat("Upstream node `", e.from_node.as_str());
                            let m2 = concat(m1.as_str(), "` produced no output `");
                            let m3 = concat(m2.as_str(), e.from_output.as_str());
                            let msg = concat(m3.as_str(), "`");
                            evs.push(EngineEvent::NodeError { workflow_id: d.workflow_id.clone(), node_id: node_id.clone(), error: msg });
                            self.set_node_status(node_id.as_str(), Status::Failed);
                            d.ret = Some(Status::Failed);
                            (DriveAction::Continue, evs)
                        },
                    }
                },
                _ => {
                    proof {
                        assert(false);
                    }
                    (DriveAction::Continue, evs)
                },
            },
            None => match top {
                Frame::Enter { node_id } => {
                    match self.nodes.get(node_id.as_str()) {
                        None => {
                            let m1 = concat("Unknown node_id `", node_id.as_str());
                            let msg = concat(m1.as_str(), "`");
                            evs.push(EngineEvent::NodeError { workflow_id: d.workflow_id.clone(), node_id, error: msg });
                            d.ret = Some(Status::Failed);
                            (DriveAction::Continue, evs)
                        },
                        Some(st) => {
                            if st.status != Status::NotStarted {
                                d.ret = Some(st.status);
                                (DriveAction::Continue, evs)
                            } else {
                                let f = Frame::AwaitCancel { node_id };
                                proof {
                                    lemma_frames_push(d.stack@, f);
                                }
                                d.stack.push(f);
                                (DriveAction::CheckCancel, evs)
                            }
                        },
                    }
                },
                Frame::AwaitCancel { node_id } => {
                    match ev {
                        DriveEvent::CancelChecked(true) => {
                            self.set_node_status(node_id.as_str(), Status::Failed);
                            evs.push(EngineEvent::WorkflowFinished { workflow_id: d.workflow_id.clone(), is_success: false });
                            d.ret = Some(Status::Failed);
                            (DriveAction::Continue, evs)
                        },
                        DriveEvent::CancelChecked(false) => {
                            let f = Frame::Inputs { node_id, next: 0 };
                            proof {
                                lemma_frames_push(d.stack@, f);
                            }
                            d.stack.push(f);
                            (DriveAction::Continue, evs)
                        },
                        _ => {
                            let f = Frame::AwaitCancel { node_id };
                            proof {
                                lemma_frames_push(d.stack@, f);
                                assert(d.stack@.push(f) =~= d0.stack@);
                            }
                            d.stack.push(f);
                            (DriveAction::CheckCancel, evs)
                        },
                    }
                },
                Frame::Inputs { node_id, next } => {
                    let count = self.data_edge_count(node_id.as_str());
                    if next < count {
                        let e = self.data_edge_at(node_id.as_str(), next);
                        let f = Frame::Inputs { node_id, next };
                        let g = Frame::Enter { node_id: e.from_node };
                        proof {
                            lemma_frames_push(d.stack@, f);
                            lemma_frames_push(d.stack@.push(f), g);
                            assert(d.stack@.push(f) =~= d0.stack@);
                        }
                        d.stack.push(f);
                        d.stack.push(g);
                        (DriveAction::Continue, evs)
                    } else {
                        self.set_node_status(node_id.as_str(), Status::Running);
                        let msg = concat("Executing ", node_id.as_str());
                        evs.push(EngineEvent::NodeLog {
                            workflow_id: d.workflow_id.clone(),
                            node_id: node_id.clone(),
                            level: String::from_str("info"),
                            message: msg,
                        });
                        let f = Frame::AwaitRun { node_id: node_id.clone() };
                        proof {
                            lemma_frames_push(d.stack@, f);
                        }
                        d.stack.push(f);
                        (DriveAction::Run { node_id }, evs)
                    }
                },
                Frame::AwaitRun { node_id } => {
                    match ev {
                        DriveEvent::Ran { status, outputs } => {
                            self.record_run(node_id.as_str(), status, outputs);
                            let m1 = concat("Finished ", node_id.as_str());
                            let m2 = concat(m1.as_str(), " with ");
                            let msg = concat(m2.as_str(), status.name());
                            evs.push(EngineEvent::NodeLog {
                                workflow_id: d.workflow_id.clone(),
                                node_id: node_id.clone(),
                                level: String::from_str("info"),
                                message: msg,
                            });
                            let outcome: &str = if status == Status::Success { "__success__" } else { "__failure__" };
                            match self.control_target(node_id.as_str(), outcome) {
                                Some(next) => {
                                    let g = Frame::Enter { node_id: next.clone() };
                                    let f = Frame::Successor { node_id, status };
                                    proof {
                                        lemma_frames_push(d.stack@, f);
                                        lemma_frames_push(d.stack@.push(f), g);
                                    }
                                    d.stack.push(f);
                                    d.stack.push(g);
                                },
                                None => {
                                    d.ret = Some(status);
                                },
                            }
                            (DriveAction::Continue, evs)
                        },
                        _ => {
                            let f = Frame::AwaitRun { node_id: node_id.clone() };
                            proof {
                                lemma_frames_push(d.stack@, f);
                                assert(d.stack@.push(f) =~= d0.stack@);
                            }
                            d.stack.push(f);
                            (DriveAction::Run { node_id }, evs)
                        },
                    }
                },
                Frame::Successor { .. } => {
                    proof {
                        assert(false);
                    }
                    (DriveAction::Continue, evs)
                },
            },
        }
    }
}


/// A node that has started (or finished) never goes back to not started:
/// a step only marks nodes failed or running, or records the outcome of a
/// run, which is success or failure.
pub proof fn law_started_nodes_stay_started(
    g: Graph,
    d: Drive,
    ev: DriveEvent,
    g2: Graph,
    d2: Drive,
    act: DriveAction,
    evs: Seq<EngineEvent>,
    k: Seq<char>,
)
    requires
        d.wf_in(g),
        ev matches DriveEvent::Ran { status, .. } ==> status == Status::Success || status == Status::Failed,
        step_taken(g, d, ev, g2, d2, act, evs),
        g.nodes@.dom().contains(k),
        g.nodes@[k].status != Status::NotStarted,
    ensures
        g2.nodes@.dom().contains(k),
        g2.nodes@[k].status != Status::NotStarted,
{
    let st = frames(d.stack@);
    if st.len() > 0 {
        lemma_frames_drop_last(d.stack@);
    }
}

/// Driving a node that has already started (or finished) gives back its
/// status at once and changes nothing: the step that enters it asks for no
/// cancellation check and no run, announces nothing, leaves every node as
/// it was, and ends that node's drive with its current status.
pub proof fn law_started_node_drive_returns_at_once(
    g: Graph,
    d: Drive,
    ev: DriveEvent,
    g2: Graph,
    d2: Drive,
    act: DriveAction,
    evs: Seq<EngineEvent>,
    k: Seq<char>,
)
    requires
        d.wf_in(g),
        step_taken(g, d, ev, g2, d2, act, evs),
        d.ret is None,
        d.stack@.len() > 0,
        d.stack@.last()@ == FrameView::Enter(k),
        g.nodes@.dom().contains(k),
        g.nodes@[k].status != Status::NotStarted,
    ensures
        act is Continue,
        evs.len() == 0,
        g2.nodes@ == g.nodes@,
        frames(d2.stack@) == frames(d.stack@).drop_last(),
        d2.ret == Some(g.nodes@[k].status),
{
    lemma_frames_drop_last(d.stack@);
}

/// When a step asks for a node to be run, the node is running and the
/// drive waits for the result of its run.
pub proof fn law_run_marks_running(
    g: Graph,
    d: Drive,
    ev: DriveEvent,
    g2: Graph,
    d2: Drive,
    act: DriveAction,
    evs: Seq<EngineEvent>,
)
    requires
        d.wf_in(g),
        step_taken(g, d, ev, g2, d2, act, evs),
        act is Run,
    ensures
        g2.nodes@.dom().contains(act->Run_node_id@),
        g2.nodes@[act->Run_node_id@].status == Status::Running,
        frames(d2.stack@).last() == FrameView::AwaitRun(act->Run_node_id@),
{
    let st = frames(d.stack@);
    if st.len() > 0 {
        lemma_frames_drop_last(d.stack@);
    }
}


/// The words of the command that runs a node: its executor's words, then
/// the class named by its specification, if any.
pub open spec fn command_words(executor: Seq<String>, spec: NodeSpec) -> Seq<Seq<char>> {
    match spec.class {
        Some(c) => texts(executor).push(c@),
        None => texts(executor),
    }
}

/// The command that runs a node with executor `executor` and
/// specification `spec`: the program first, then its arguments.
pub fn command_line(executor: &Vec<String>, spec: &NodeSpec) -> (r: Vec<String>)
    ensures
        texts(r@) == command_words(executor@, *spec),
{
    let mut r: Vec<String> = Vec::new();
    let mut i: usize = 0;
    while i < executor.len()
        invariant
            i <= executor@.len(),
            r@.len() == i,
            forall|j: int| 0 <= j < i ==> (#[trigger] r@[j])@ == executor@[j]@,
        decreases executor@.len() - i,
    {
        r.push(executor[i].clone());
        i = i + 1;
    }
    assert(texts(r@) =~= texts(executor@));
    match &spec.class {
        Some(c) => {
            let ghost before = r@;
            r.push(c.clone());
            assert(texts(r@) =~= texts(before).push(c@));
        },
        None => {},
    }
    r
}

/// What happens while a node's process runs, as its runner sees it.
#[derive(Debug)]
pub enum ProcessEvent {
    /// The process could not be started; the error's text.
    SpawnFailed(String),
    /// The inputs could not be written to the process; the error's text.
    InputWriteFailed(String),
    /// The inputs could not be flushed to the process; the error's text.
    InputFlushFailed(String),
    /// A line of standard output could not be read; the error's text.
    ReadFailed(String),
    /// A line of standard output.
    Line(String),
    /// A cancellation came in while the output was read.
    Cancelled,
    /// The process exited, successfully or not.
    Exited(bool),
}

/// One announcement `ev` that node `k` of workflow `w` has new outputs.
pub open spec fn is_node_output(ev: EngineEvent, w: Seq<char>, k: Seq<char>) -> bool {
    ev matches EngineEvent::NodeOutput { workflow_id, node_id } && workflow_id@ == w && node_id@ == k
}

/// One announcement `ev` about node `k` of workflow `w`: a log at `level` with `msg`.
pub open spec fn is_node_log(ev: EngineEvent, w: Seq<char>, k: Seq<char>, level: Seq<char>, msg: Seq<char>) -> bool {
    ev matches EngineEvent::NodeLog { workflow_id, node_id, level: l, message } && workflow_id@ == w && node_id@ == k
        && l@ == level && message@ == msg
}

/// What a line's meaning `e` does to the outputs `before` of node `k` of
/// workflow `w`: new outputs replace the old ones and are announced; a log
/// is passed on; otherwise nothing happens.
pub open spec fn line_applied(
    w: Seq<char>,
    k: Seq<char>,
    before: Map<Seq<char>, JsonView>,
    e: LineEffect,
    after: Map<Seq<char>, JsonView>,
    ev: Option<EngineEvent>,
) -> bool {
    match e {
        LineEffect::Outputs(m) => after == map_view(m@) && (ev matches Some(x) && is_node_output(x, w, k)),
        LineEffect::Nothing => after == before && ev is None,
        LineEffect::Log { level, message } => after == before && (ev matches Some(x) && is_node_log(x, w, k, level@, message@)),
    }
}

/// One step of running node `k` of workflow `w` as a process, from outputs
/// `before` to outputs `after`: whether the run is over and with which
/// status (`st`), and what is announced (`ev`). A process that cannot be
/// started or given its inputs fails with no outputs; each line of output
/// means what `read_output_line` says, so the last outputs printed are the
/// ones kept; a line that cannot be read is reported and skipped; a
/// cancellation fails the node with the outputs so far; the exit status
/// decides between success and failure.
pub open spec fn process_step(
    w: Seq<char>,
    k: Seq<char>,
    before: Map<Seq<char>, JsonView>,
    e: ProcessEvent,
    after: Map<Seq<char>, JsonView>,
    st: Option<Status>,
    ev: Option<EngineEvent>,
) -> bool {
    match e {
        ProcessEvent::SpawnFailed(t) => after == Map::<Seq<char>, JsonView>::empty() && st == Some(Status::Failed)
            && (ev matches Some(x) && is_node_error(x, w, k, "Failed to spawn process: "@ + t@)),
        ProcessEvent::InputWriteFailed(t) => after == Map::<Seq<char>, JsonView>::empty() && st == Some(Status::Failed)
            && (ev matches Some(x) && is_node_error(x, w, k, "Failed to serialize inputs: "@ + t@)),
        ProcessEvent::InputFlushFailed(t) => after == Map::<Seq<char>, JsonView>::empty() && st == Some(Status::Failed)
            && (ev matches Some(x) && is_node_error(x, w, k, "Failed to flush stdin: "@ + t@)),
        ProcessEvent::ReadFailed(t) => after == before && st is None
            && (ev matches Some(x) && is_node_error(x, w, k, "Stdout I/O error: "@ + t@)),
        ProcessEvent::Line(l) => st is None
            && exists|le: LineEffect| line_read(l@, json_text_parse(l@), le) && line_applied(w, k, before, le, after, ev),
        ProcessEvent::Cancelled => after == before && st == Some(Status::Failed) && ev is None,
        ProcessEvent::Exited(ok) => after == before && st == Some(if ok { Status::Success } else { Status::Failed }) && ev is None,
    }
}

/// Takes one step of running node `node_id` of workflow `workflow_id` as a
/// process (see `process_step`): updates the outputs, and gives the final
/// status once the run is over and what to announce.
pub fn subprocess_step(outputs: &mut JsonMap, workflow_id: &str, node_id: &str, e: ProcessEvent) -> (r: (Option<Status>, Option<EngineEvent>))
    requires
        old(outputs).wf(),
    ensures
        final(outputs).wf(),
        process_step(workflow_id@, node_id@, map_view(old(outputs)@), e, map_view(final(outputs)@), r.0, r.1),
{
    let w = String::from_str(workflow_id);
    let k = String::from_str(node_id);
    match e {
        ProcessEvent::SpawnFailed(t) => {
            *outputs = StrMap::new();
            proof {
                assert(map_view(outputs@) =~= Map::<Seq<char>, JsonView>::empty());
            }
            (Some(Status::Failed), Some(EngineEvent::NodeError { workflow_id: w, node_id: k, error: concat("Failed to spawn process: ", t.as_str()) }))
        },
        ProcessEvent::InputWriteFailed(t) => {
            *outputs = StrMap::new();
            proof {
                assert(map_view(outputs@) =~= Map::<Seq<char>, JsonView>::empty());
            }
            (Some(Status::Failed), Some(EngineEvent::NodeError { workflow_id: w, node_id: k, error: concat("Failed to serialize inputs: ", t.as_str()) }))
        },
        ProcessEvent::InputFlushFailed(t) => {
            *outputs = StrMap::new();
            proof {
                assert(map_view(outputs@) =~= Map::<Seq<char>, JsonView>::empty());
            }
            (Some(Status::Failed), Some(EngineEvent::NodeError { workflow_id: w, node_id: k, error: concat("Failed to flush stdin: ", t.as_str()) }))
        },
        ProcessEvent::ReadFailed(t) => {
            (None, Some(EngineEvent::NodeError { workflow_id: w, node_id: k, error: concat("Stdout I/O error: ", t.as_str()) }))
        },
        ProcessEvent::Line(l) => {
            let ghost gl = l;
            let le = read_output_line(l);
            let ghost gle = le;
            let ev = match le {
                LineEffect::Outputs(m) => {
                    *outputs = m;
                    Some(EngineEvent::NodeOutput { workflow_id: w, node_id: k })
                },
                LineEffect::Nothing => None,
                LineEffect::Log { level, message } => Some(EngineEvent::NodeLog { workflow_id: w, node_id: k, level, message }),
            };
            proof {
                assert(line_read(gl@, json_text_parse(gl@), gle) && line_applied(workflow_id@, node_id@, map_view(old(outputs)@), gle, map_view(outputs@), ev));
            }
            (None, ev)
        },
        ProcessEvent::Cancelled => (Some(Status::Failed), None),
        ProcessEvent::Exited(ok) => (Some(if ok { Status::Success } else { Status::Failed }), None),
    }
}

} // verus!
