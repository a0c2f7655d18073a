//! The in-memory graph of a workflow, ready for execution: one state per
//! node instance, data edges by target node, and control edges by
//! (source node, outcome).

use vstd::prelude::*;
use crate::engine::{EngineError, EngineEvent};
use crate::json::{JsonMap, JsonValue, JsonView, copy_map, map_view, member, lemma_view_kind, object_members, entry_views, lemma_object_view, lemma_members_view};
use crate::json_text::{json_text_parse, parse_json_text};
use crate::plugin::texts;
use crate::plugin_manager::{PluginManager, PluginManifest, Plugin};
use crate::specs::{EdgeDefinition, NodeSpec, same_spec};
use crate::strmap::{StrMap, entries_map, lemma_entries_map_at, lemma_entries_map_dom};
use crate::text::{str_eq, prefix_before, before_first};
use crate::workflow_validator::{WorkflowDefinition, WorkflowError, NodeInstance};

verus! {

/// Run status of a node of the graph.
#[derive(Clone, Copy, Debug, PartialEq, Eq, Structural)]
pub enum Status {
    NotStarted,
    Running,
    Success,
    Failed,
}

/// The state of one node of the graph.
#[derive(Debug)]
pub struct NodeState {
    /// The node's specification from its plugin.
    pub spec: NodeSpec,
    /// The command that runs the node.
    pub executor: Vec<String>,
    /// Inputs: literal ones from the workflow, then values from upstream nodes.
    pub inputs: JsonMap,
    /// Outputs, once the node has run.
    pub outputs: Option<JsonMap>,
    pub status: Status,
}

/// A workflow graph.
#[derive(Debug)]
pub struct Graph {
    /// Node states by instance id.
    pub nodes: StrMap<NodeState>,
    /// For each node id, the data edges feeding into it (edges whose
    /// `to_input` is not `__input__`), in workflow order.
    pub data_edges: StrMap<Vec<EdgeDefinition>>,
    /// For each source node and outcome (`__success__`, `__failure__`), the
    /// next node.
    pub control_edges: StrMap<StrMap<String>>,
}

/// The command that runs a plugin's nodes: the manifest's executor, or the
/// default one for its runtime (`uv` or `poetry` for Python, `bash plugin.sh`),
/// or none when the manifest names no runtime.
pub open spec fn executor_text(m: PluginManifest) -> Seq<Seq<char>> {
    match m.executor {
        Some(e) => texts(e@),
        None => match m.runtime {
            None => Seq::empty(),
            Some(rt) => if rt.language@ == "python"@ && rt.manager@ == "uv"@ {
                seq!["uv"@, "run"@, "python"@, "-m"@, m.plugin_fqdn@]
            } else if rt.language@ == "python"@ && rt.manager@ == "poetry"@ {
                seq!["poetry"@, "run"@, "python"@, "-m"@, m.plugin_fqdn@]
            } else {
                seq!["bash"@, "plugin.sh"@]
            },
        },
    }
}

/// A manifest for which a command can be found (no other runtime has a default).
pub open spec fn has_executor(m: PluginManifest) -> bool {
    match m.executor {
        Some(_) => true,
        None => match m.runtime {
            None => true,
            Some(rt) => (rt.language@ == "python"@ && (rt.manager@ == "uv"@ || rt.manager@ == "poetry"@))
                || rt.language@ == "bash"@,
        },
    }
}

fn texts_of(parts: &Vec<String>) -> (r: Vec<String>)
    ensures
        texts(r@) == texts(parts@),
{
    let mut out: Vec<String> = Vec::new();
    let mut i: usize = 0;
    while i < parts.len()
        invariant
            i <= parts@.len(),
            texts(out@) == texts(parts@.take(i as int)),
        decreases parts@.len() - i,
    {
        let ghost before = out@;
        out.push(parts[i].clone());
        assert(texts(out@) =~= texts(before).push(parts@[i as int]@));
        assert(texts(parts@.take(i + 1)) =~= texts(parts@.take(i as int)).push(parts@[i as int]@));
        i = i + 1;
    }
    assert(parts@.take(parts@.len() as int) =~= parts@);
    out
}

fn words(a: &str, b: &str, c: &str, d: &str, e: &str) -> (r: Vec<String>)
    ensures
        texts(r@) == seq![a@, b@, c@, d@, e@],
{
    let mut v: Vec<String> = Vec::new();
    v.push(String::from_str(a));
    v.push(String::from_str(b));
    v.push(String::from_str(c));
    v.push(String::from_str(d));
    v.push(String::from_str(e));
    assert(texts(v@) =~= seq![a@, b@, c@, d@, e@]);
    v
}

/// The command that runs a plugin's nodes.
pub fn executor_for(man: &PluginManifest) -> (r: Vec<String>)
    requires
        has_executor(*man),
    ensures
        texts(r@) == executor_text(*man),
{
    match &man.executor {
        Some(exec) => texts_of(exec),
        None => match &man.runtime {
            None => {
                let v: Vec<String> = Vec::new();
                assert(texts(v@) =~= Seq::<Seq<char>>::empty());
                v
            },
            Some(rt) => {
                let lang = rt.language.as_str();
                let manager = rt.manager.as_str();
                if str_eq(lang, "python") && str_eq(manager, "uv") {
                    words("uv", "run", "python", "-m", man.plugin_fqdn.as_str())
                } else if str_eq(lang, "python") && str_eq(manager, "poetry") {
                    words("poetry", "run", "python", "-m", man.plugin_fqdn.as_str())
                } else {
                    let mut v: Vec<String> = Vec::new();
                    v.push(String::from_str("bash"));
                    v.push(String::from_str("plugin.sh"));
                    assert(texts(v@) =~= seq!["bash"@, "plugin.sh"@]);
                    v
                }
            },
        },
    }
}

/// The namespace part of a node FQDN (all of it when there is no `:`).
pub open spec fn fqdn_namespace(fqdn: Seq<char>) -> Seq<char> {
    before_first(fqdn, ':')
}

/// The plugins can build this instance: its namespace is loaded, has its
/// node specification and a command to run it.
pub open spec fn instance_buildable(inst: NodeInstance, plugins: Map<Seq<char>, Plugin>) -> bool {
    let ns = fqdn_namespace(inst.node_fqdn@);
    &&& plugins.dom().contains(ns)
    &&& plugins[ns].nodes.wf()
    &&& plugins[ns].nodes@.dom().contains(inst.node_fqdn@)
    &&& has_executor(plugins[ns].manifest)
    &&& (inst.inputs matches Some(m) ==> m.wf())
}

/// For each instance id, the position of the last instance with that id.
pub open spec fn last_instance(ns: Seq<NodeInstance>) -> Map<Seq<char>, int>
    decreases ns.len(),
{
    if ns.len() == 0 {
        Map::empty()
    } else {
        last_instance(ns.drop_last()).insert(ns.last().id@, ns.len() - 1)
    }
}

/// The inputs an instance starts with: its literal inputs, and its literal
/// value under `value`.
pub open spec fn seeded_inputs(inst: NodeInstance) -> Map<Seq<char>, JsonView> {
    let base = match inst.inputs {
        Some(m) => map_view(m@),
        None => Map::empty(),
    };
    match inst.value {
        Some(v) => base.insert("value"@, v@),
        None => base,
    }
}

/// The state that an instance starts in.
pub open spec fn initial_state(st: NodeState, inst: NodeInstance, plugins: Map<Seq<char>, Plugin>) -> bool {
    let p = plugins[fqdn_namespace(inst.node_fqdn@)];
    &&& same_spec(st.spec, p.nodes@[inst.node_fqdn@])
    &&& texts(st.executor@) == executor_text(p.manifest)
    &&& st.inputs.wf()
    &&& map_view(st.inputs@) == seeded_inputs(inst)
    &&& st.outputs is None
    &&& st.status == Status::NotStarted
}

/// An edge that carries data (its target port is not `__input__`).
pub open spec fn is_data_edge(e: EdgeDefinition) -> bool {
    e.to_input@ != "__input__"@
}

/// The data edges into node `k`, in workflow order.
pub open spec fn data_edges_into(es: Seq<EdgeDefinition>, k: Seq<char>) -> Seq<EdgeDefinition>
    decreases es.len(),
{
    if es.len() == 0 {
        Seq::empty()
    } else {
        let rest = data_edges_into(es.drop_last(), k);
        if is_data_edge(es.last()) && es.last().to_node@ == k {
            rest.push(es.last())
        } else {
            rest
        }
    }
}

/// Control edges keyed by (source node, outcome): a later edge wins.
pub open spec fn control_table(es: Seq<EdgeDefinition>) -> Map<(Seq<char>, Seq<char>), Seq<char>>
    decreases es.len(),
{
    if es.len() == 0 {
        Map::empty()
    } else {
        let rest = control_table(es.drop_last());
        let e = es.last();
        if is_data_edge(e) {
            rest
        } else {
            rest.insert((e.from_node@, e.from_output@), e.to_node@)
        }
    }
}

impl Graph {
    /// The node that control passes to from `from` on `outcome`.
    pub open spec fn control_target_spec(&self, from: Seq<char>, outcome: Seq<char>) -> Option<Seq<char>> {
        if self.control_edges@.dom().contains(from) && self.control_edges@[from]@.dom().contains(outcome) {
            Some(self.control_edges@[from]@[outcome]@)
        } else {
            None
        }
    }

    /// The tables' keys are distinct.
    pub open spec fn wf(&self) -> bool {
        &&& self.nodes.wf()
        &&& self.data_edges.wf()
        &&& self.control_edges.wf()
        &&& forall|k: Seq<char>| #[trigger] self.control_edges@.dom().contains(k) ==> self.control_edges@[k].wf()
        &&& forall|k: Seq<char>| #[trigger] self.nodes@.dom().contains(k) ==> self.nodes@[k].inputs.wf()
            && (self.nodes@[k].outputs matches Some(o) ==> o.wf())
    }

    /// The node that control passes to from `from` on `outcome`.
    pub fn control_target(&self, from: &str, outcome: &str) -> (r: Option<&String>)
        requires
            self.wf(),
        ensures
            match r {
                Some(t) => self.control_target_spec(from@, outcome@) == Some(t@),
                None => self.control_target_spec(from@, outcome@) is None,
            },
    {
        match self.control_edges.get(from) {
            Some(inner) => inner.get(outcome),
            None => None,
        }
    }

    /// Builds the graph of a workflow definition: a fresh state per node
    /// instance (a later instance with the same id wins), data edges by
    /// target node and control edges by (source, outcome).
    pub fn from_definition(def: &WorkflowDefinition, plugins: &PluginManager) -> (r: Result<Graph, EngineError>)
        requires
            plugins.plugins.wf(),
            forall|i: int| 0 <= i < def.nodes@.len() ==> instance_buildable(#[trigger] def.nodes@[i], plugins.plugins@),
        ensures
            r matches Ok(g) && g.wf() && {
                &&& g.nodes@.dom() =~= last_instance(def.nodes@).dom()
                &&& forall|k: Seq<char>| #[trigger] g.nodes@.dom().contains(k) ==> initial_state(
                    g.nodes@[k],
                    def.nodes@[last_instance(def.nodes@)[k]],
                    plugins.plugins@,
                )
                &&& forall|k: Seq<char>| #[trigger] g.data_edges@.dom().contains(k) <==> data_edges_into(def.edges@, k).len() > 0
                &&& forall|k: Seq<char>| #[trigger] g.data_edges@.dom().contains(k) ==> g.data_edges@[k]@ == data_edges_into(def.edges@, k)
                &&& forall|a: Seq<char>, b: Seq<char>| #[trigger] g.control_target_spec(a, b) == if control_table(def.edges@).dom().contains((a, b)) {
                    Some(control_table(def.edges@)[(a, b)])
                } else {
                    None
                }
            },
    {
        let mut nodes: StrMap<NodeState> = StrMap::new();
        let mut i: usize = 0;
        while i < def.nodes.len()
            invariant
                plugins.plugins.wf(),
                forall|j: int| 0 <= j < def.nodes@.len() ==> instance_buildable(#[trigger] def.nodes@[j], plugins.plugins@),
                i <= def.nodes@.len(),
                nodes.wf(),
                nodes@.dom() =~= last_instance(def.nodes@.take(i as int)).dom(),
                forall|k: Seq<char>| #[trigger] nodes@.dom().contains(k) ==> {
                    &&& 0 <= last_instance(def.nodes@.take(i as int))[k] < i
                    &&& initial_state(nodes@[k], def.nodes@[last_instance(def.nodes@.take(i as int))[k]], plugins.plugins@)
                },
            decreases def.nodes@.len() - i,
        {
            let inst = &def.nodes[i];
            assert(instance_buildable(def.nodes@[i as int], plugins.plugins@));
            let namespace = prefix_before(inst.node_fqdn.as_str(), ':');
            let plugin = plugins.get(namespace.as_str()).unwrap();
            let spec = plugin.nodes.get(inst.node_fqdn.as_str()).unwrap().copy();
            let executor = executor_for(&plugin.manifest);
            let mut inputs_map: JsonMap = match &inst.inputs {
                Some(m) => copy_map(m),
                None => StrMap::new(),
            };
            match &inst.value {
                Some(v) => {
                    inputs_map.insert(String::from_str("value"), v.deep_copy());
                    assert(map_view(inputs_map@) =~= seeded_inputs(*inst));
                },
                None => {
                    assert(map_view(inputs_map@) =~= seeded_inputs(*inst));
                },
            }
            let state = NodeState { spec, executor, inputs: inputs_map, outputs: None, status: Status::NotStarted };
            nodes.insert(inst.id.clone(), state);
            proof {
                assert(def.nodes@.take(i + 1).drop_last() =~= def.nodes@.take(i as int));
                assert(def.nodes@.take(i + 1).last() == def.nodes@[i as int]);
            }
            i = i + 1;
        }
        assert(def.nodes@.take(def.nodes@.len() as int) =~= def.nodes@);
        let mut data_edges: StrMap<Vec<EdgeDefinition>> = StrMap::new();
        let mut control_edges: StrMap<StrMap<String>> = StrMap::new();
        let mut k: usize = 0;
        while k < def.edges.len()
            invariant
                k <= def.edges@.len(),
                data_edges.wf(),
                control_edges.wf(),
                forall|x: Seq<char>| #[trigger] control_edges@.dom().contains(x) ==> control_edges@[x].wf(),
                forall|x: Seq<char>| #[trigger] data_edges@.dom().contains(x) <==> data_edges_into(def.edges@.take(k as int), x).len() > 0,
                forall|x: Seq<char>| #[trigger] data_edges@.dom().contains(x) ==> data_edges@[x]@ == data_edges_into(def.edges@.take(k as int), x),
                forall|a: Seq<char>, b: Seq<char>| (control_edges@.dom().contains(a) && control_edges@[a]@.dom().contains(b)) == #[trigger] control_table(def.edges@.take(k as int)).dom().contains((a, b)),
                forall|a: Seq<char>, b: Seq<char>| #[trigger] control_table(def.edges@.take(k as int)).dom().contains((a, b)) ==> control_edges@[a]@[b]@ == control_table(def.edges@.take(k as int))[(a, b)],
            decreases def.edges@.len() - k,
        {
            let edge = &def.edges[k];
            let ghost es = def.edges@.take(k as int);
            proof {
                assert(def.edges@.take(k + 1).drop_last() =~= es);
                assert(def.edges@.take(k + 1).last() == def.edges@[k as int]);
            }
            if str_eq(edge.to_input.as_str(), "__input__") {
                let mut inner = match control_edges.remove(edge.from_node.as_str()) {
                    Some(m) => m,
                    None => StrMap::new(),
                };
                inner.insert(edge.from_output.clone(), edge.to_node.clone());
                control_edges.insert(edge.from_node.clone(), inner);
                assert(control_table(def.edges@.take(k + 1)) == control_table(es).insert((edge.from_node@, edge.from_output@), edge.to_node@));
                assert forall|x: Seq<char>| #[trigger] data_edges@.dom().contains(x) <==> data_edges_into(def.edges@.take(k + 1), x).len() > 0 by {}
            } else {
                let mut list = match data_edges.remove(edge.to_node.as_str()) {
                    Some(v) => v,
                    None => Vec::new(),
                };
                list.push(edge.copy());
                data_edges.insert(edge.to_node.clone(), list);
                assert(control_table(def.edges@.take(k + 1)) == control_table(es));
            }
            k = k + 1;
        }
        assert(def.edges@.take(def.edges@.len() as int) =~= def.edges@);
        Ok(Graph { nodes, data_edges, control_edges })
    }
}

/// The text member `k` of an object, if it is there and a string.
pub open spec fn text_member(o: Seq<(Seq<char>, JsonView)>, k: Seq<char>) -> Option<Seq<char>> {
    if object_members(o).dom().contains(k) && object_members(o)[k] is Str {
        Some(object_members(o)[k]->Str_0)
    } else {
        None
    }
}

/// The `type` of a line a node prints, when the line is a JSON object with a text `type`.
pub open spec fn line_type(parsed: Option<JsonView>) -> Option<Seq<char>> {
    match parsed {
        Some(JsonView::Object(o)) => text_member(o, "type"@),
        _ => None,
    }
}

/// What a line printed by a node means.
#[derive(Debug)]
pub enum LineEffect {
    /// The node's outputs become these (an `output` line with an object of outputs).
    Outputs(JsonMap),
    /// An `output` line without an object of outputs: nothing happens.
    Nothing,
    /// A log line to pass on.
    Log { level: String, message: String },
}

/// `r` is what `line` means, given its reading as JSON (`None` when it is
/// no JSON): an object with `type` `output` sets the outputs from its
/// `outputs` object (nothing happens without one); one with `type` `log` is
/// a log line with its `level` (default `info`) and `message` (default
/// empty); anything else is an `info` log of the line itself.
pub open spec fn line_read(line: Seq<char>, parsed: Option<JsonView>, r: LineEffect) -> bool {
    if line_type(parsed) == Some("output"@) {
        let m = object_members(parsed->Some_0->Object_0);
        if m.dom().contains("outputs"@) && m["outputs"@] is Object {
            r matches LineEffect::Outputs(out) && out.wf() && map_view(out@) == object_members(m["outputs"@]->Object_0)
        } else {
            r is Nothing
        }
    } else if line_type(parsed) == Some("log"@) {
        let o = parsed->Some_0->Object_0;
        r matches LineEffect::Log { level, message }
            && level@ == (if let Some(t) = text_member(o, "level"@) { t } else { "info"@ })
            && message@ == (if let Some(t) = text_member(o, "message"@) { t } else { ""@ })
    } else {
        r matches LineEffect::Log { level, message } && level@ == "info"@ && message@ == line
    }
}

/// The content of an optional value.
pub open spec fn option_view(p: Option<JsonValue>) -> Option<JsonView> {
    match p {
        Some(v) => Some(v@),
        None => None,
    }
}

/// The text of member `k` of an object, if it is a string.
fn text_member_of(o: &Vec<(String, JsonValue)>, k: &str) -> (r: Option<String>)
    ensures
        match r {
            Some(t) => text_member(entry_views(o@), k@) == Some(t@),
            None => text_member(entry_views(o@), k@) is None,
        },
{
    proof {
        lemma_members_view(o@);
    }
    match member(o, k) {
        Some(JsonValue::String(s)) => Some(s.clone()),
        Some(other) => {
            proof {
                lemma_view_kind(*other);
            }
            None
        },
        None => None,
    }
}

/// Reads a line that a running node printed on its standard output, given
/// the line's reading as JSON (`None` when it is no JSON); see `line_read`.
pub fn line_effect(line: String, parsed: Option<JsonValue>) -> (r: LineEffect)
    ensures
        line_read(line@, option_view(parsed), r),
{
    proof {
        reveal_strlit("output");
        reveal_strlit("log");
        reveal_strlit("");
        assert("output"@.len() == 6 && "log"@.len() == 3);
        if parsed is Some {
            lemma_view_kind(parsed->Some_0);
        }
    }
    if let Some(JsonValue::Object(o)) = &parsed {
        proof {
            lemma_object_view(*o);
            lemma_members_view(o@);
        }
        if let Some(t) = text_member_of(o, "type") {
            if str_eq(t.as_str(), "output") {
                return match member(o, "outputs") {
                    Some(JsonValue::Object(outs)) => {
                        proof {
                            lemma_object_view(*outs);
                            lemma_members_view(outs@);
                        }
                        let mut m: JsonMap = StrMap::new();
                        let mut i: usize = 0;
                        while i < outs.len()
                            invariant
                                i <= outs@.len(),
                                m.wf(),
                                map_view(m@) == map_view(entries_map(outs@.take(i as int))),
                            decreases outs@.len() - i,
                        {
                            let v = outs[i].1.deep_copy();
                            let ghost before = m@;
                            m.insert(outs[i].0.clone(), v);
                            proof {
                                assert(map_view(m@) =~= map_view(before).insert(outs@[i as int].0@, outs@[i as int].1@));
                                assert(outs@.take(i + 1).drop_last() =~= outs@.take(i as int));
                                assert(outs@.take(i + 1).last() == outs@[i as int]);
                                assert(map_view(m@) =~= map_view(entries_map(outs@.take(i + 1))));
                            }
                            i = i + 1;
                        }
                        assert(outs@.take(outs@.len() as int) =~= outs@);
                        LineEffect::Outputs(m)
                    },
                    Some(other) => {
                        proof {
                            lemma_view_kind(*other);
                        }
                        LineEffect::Nothing
                    },
                    None => LineEffect::Nothing,
                };
            } else if str_eq(t.as_str(), "log") {
                let level = match text_member_of(o, "level") {
                    Some(l) => l,
                    None => String::from_str("info"),
                };
                let message = match text_member_of(o, "message") {
                    Some(msg) => msg,
                    None => String::new(),
                };
                assert(option_view(parsed) == Some(JsonView::Object(entry_views(o@))));
                assert(line_type(option_view(parsed)) == Some("log"@));
                assert(level@ == (if let Some(t) = text_member(entry_views(o@), "level"@) { t } else { "info"@ }));
                assert(message@ == (if let Some(t) = text_member(entry_views(o@), "message"@) { t } else { ""@ }));
                return LineEffect::Log { level, message };
            }
        }
    }
    LineEffect::Log { level: String::from_str("info"), message: line }
}

/// Reads a line that a running node printed on its standard output: the
/// line is read as JSON by `serde_json`, and then means what `line_read` says.
pub fn read_output_line(line: String) -> (r: LineEffect)
    ensures
        line_read(line@, json_text_parse(line@), r),
{
    let parsed = parse_json_text(line.as_str());
    line_effect(line, parsed)
}

impl Graph {
    /// A node of the graph whose specification is `sys:start`.
    pub fn get_start_id(&self) -> (r: Result<&String, EngineError>)
        requires
            self.wf(),
        ensures
            match r {
                Ok(id) => self.nodes@.dom().contains(id@) && self.nodes@[id@].spec.node_fqdn@ == "sys:start"@,
                Err(e) => (e matches EngineError::Workflow(WorkflowError::MissingStartNode)) && forall|k: Seq<char>|
                    #[trigger] self.nodes@.dom().contains(k) ==> self.nodes@[k].spec.node_fqdn@ != "sys:start"@,
            },
    {
        let mut i: usize = 0;
        while i < self.nodes.entries.len()
            invariant
                self.wf(),
                i <= self.nodes.entries@.len(),
                forall|j: int| 0 <= j < i ==> (#[trigger] self.nodes.entries@[j]).1.spec.node_fqdn@ != "sys:start"@,
            decreases self.nodes.entries@.len() - i,
        {
            if str_eq(self.nodes.entries[i].1.spec.node_fqdn.as_str(), "sys:start") {
                proof {
                    lemma_entries_map_at(self.nodes.entries@, i as int);
                }
                return Ok(&self.nodes.entries[i].0);
            }
            i = i + 1;
        }
        assert forall|k: Seq<char>| #[trigger] self.nodes@.dom().contains(k) implies self.nodes@[k].spec.node_fqdn@ != "sys:start"@ by {
            lemma_entries_map_dom(self.nodes.entries@, k);
            let j = choose|j: int| 0 <= j < self.nodes.entries@.len() && #[trigger] self.nodes.entries@[j].0@ == k;
            lemma_entries_map_at(self.nodes.entries@, j);
        }
        Err(EngineError::Workflow(WorkflowError::MissingStartNode))
    }
}

/// The command that runs a plugin's nodes: the manifest's own executor
/// when it names one, word for word; else for Python under `uv`,
/// `uv run python -m <plugin>`; under `poetry`, `poetry run python -m
/// <plugin>`; for bash, `bash plugin.sh`; and no command without a runtime.
pub proof fn law_executor_words(m: PluginManifest)
    ensures
        m.executor matches Some(e) ==> executor_text(m).len() == e@.len()
            && forall|i: int| 0 <= i < e@.len() ==> executor_text(m)[i] == (#[trigger] e@[i])@,
        m.executor is None && m.runtime is None ==> executor_text(m).len() == 0,
        m.executor is None ==> (m.runtime matches Some(rt) ==> (rt.language@ == "python"@ && rt.manager@ == "uv"@
            ==> executor_text(m) == seq!["uv"@, "run"@, "python"@, "-m"@, m.plugin_fqdn@])),
        m.executor is None ==> (m.runtime matches Some(rt) ==> (rt.language@ == "python"@ && rt.manager@ == "poetry"@
            ==> executor_text(m) == seq!["poetry"@, "run"@, "python"@, "-m"@, m.plugin_fqdn@])),
        m.executor is None ==> (m.runtime matches Some(rt) ==> (rt.language@ == "bash"@
            ==> executor_text(m) == seq!["bash"@, "plugin.sh"@])),
{
    reveal_strlit("python");
    reveal_strlit("bash");
    assert("python"@ != "bash"@) by {
        assert("python"@[0] != "bash"@[0]);
    }
}

/// The data edges into node `k` are the edges of the workflow that end at
/// `k` on a port other than `__input__`, each kept.
pub proof fn law_data_edges_into(es: Seq<EdgeDefinition>, k: Seq<char>, e: EdgeDefinition)
    ensures
        data_edges_into(es, k).contains(e) <==> es.contains(e) && e.to_input@ != "__input__"@ && e.to_node@ == k,
    decreases es.len(),
{
    if es.len() > 0 {
        let pre = es.drop_last();
        law_data_edges_into(pre, k, e);
        assert(es =~= pre.push(es.last()));
        let rest = data_edges_into(pre, k);
        if is_data_edge(es.last()) && es.last().to_node@ == k {
            assert(data_edges_into(es, k) == rest.push(es.last()));
            if rest.push(es.last()).contains(e) && e != es.last() {
                let i = choose|i: int| 0 <= i < rest.len() + 1 && rest.push(es.last())[i] == e;
                assert(rest[i] == e);
            }
            if rest.contains(e) {
                let i = choose|i: int| 0 <= i < rest.len() && rest[i] == e;
                assert(rest.push(es.last())[i] == e);
            }
            assert(rest.push(es.last())[rest.len() as int] == es.last());
        }
        if es.contains(e) && e != es.last() {
            let i = choose|i: int| 0 <= i < es.len() && es[i] == e;
            assert(pre[i] == e);
        }
        if pre.contains(e) {
            let i = choose|i: int| 0 <= i < pre.len() && pre[i] == e;
            assert(es[i] == e);
        }
        assert(es[es.len() - 1] == es.last());
    }
}

/// Control passes from node `f` on outcome `o` to the target of the last
/// edge of the workflow from `f`'s port `o` into an `__input__` port; it
/// passes nowhere when there is no such edge.
pub proof fn law_control_table(es: Seq<EdgeDefinition>, f: Seq<char>, o: Seq<char>)
    ensures
        control_table(es).dom().contains((f, o)) <==> exists|i: int| 0 <= i < es.len() && (#[trigger] es[i]).from_node@ == f
            && es[i].from_output@ == o && es[i].to_input@ == "__input__"@,
        control_table(es).dom().contains((f, o)) ==> exists|i: int| 0 <= i < es.len() && (#[trigger] es[i]).from_node@ == f
            && es[i].from_output@ == o && es[i].to_input@ == "__input__"@ && control_table(es)[(f, o)] == es[i].to_node@
            && forall|j: int| i < j < es.len() ==> !((#[trigger] es[j]).from_node@ == f && es[j].from_output@ == o
                && es[j].to_input@ == "__input__"@),
    decreases es.len(),
{
    if es.len() > 0 {
        let pre = es.drop_last();
        law_control_table(pre, f, o);
        let l = es.last();
        if !is_data_edge(l) && l.from_node@ == f && l.from_output@ == o {
            let i = es.len() - 1;
            assert(es[i] == l);
        } else {
            assert(control_table(es).dom().contains((f, o)) == control_table(pre).dom().contains((f, o)));
            if control_table(es).dom().contains((f, o)) {
                assert(control_table(es)[(f, o)] == control_table(pre)[(f, o)]);
                let i = choose|i: int| 0 <= i < pre.len() && (#[trigger] pre[i]).from_node@ == f
                    && pre[i].from_output@ == o && pre[i].to_input@ == "__input__"@ && control_table(pre)[(f, o)] == pre[i].to_node@
                    && forall|j: int| i < j < pre.len() ==> !((#[trigger] pre[j]).from_node@ == f && pre[j].from_output@ == o
                        && pre[j].to_input@ == "__input__"@);
                assert(es[i] == pre[i]);
                assert forall|j: int| i < j < es.len() implies !((#[trigger] es[j]).from_node@ == f && es[j].from_output@ == o
                    && es[j].to_input@ == "__input__"@) by {
                    if j < pre.len() {
                        assert(es[j] == pre[j]);
                    }
                }
            }
            if exists|i: int| 0 <= i < es.len() && (#[trigger] es[i]).from_node@ == f && es[i].from_output@ == o
                && es[i].to_input@ == "__input__"@ {
                let i = choose|i: int| 0 <= i < es.len() && (#[trigger] es[i]).from_node@ == f && es[i].from_output@ == o
                    && es[i].to_input@ == "__input__"@;
                assert(pre[i] == es[i]);
            }
        }
    }
}

} // verus!
