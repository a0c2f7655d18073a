//! Checks of workflow definitions: the light structural check (one start
//! node, edges between declared nodes with named ports) and the full check
//! against the loaded plugins.

use vstd::prelude::*;
use crate::json::JsonValue;
use crate::plugin_manager::{Plugin, PluginManager};
use crate::specs::{EdgeDefinition, IOField, NodeSpec};
use crate::strmap::StrMap;
use crate::text::{str_eq, concat, count_of, count_char, prefix_before, before_first, is_blank, is_blank_text};

verus! {

/// A workflow definition (a workflow file).
#[derive(Debug)]
pub struct WorkflowDefinition {
    pub version: String,
    pub name: String,
    pub metadata: Option<WorkflowMetadata>,
    pub nodes: Vec<NodeInstance>,
    pub edges: Vec<EdgeDefinition>,
}

/// Optional descriptive data of a workflow.
#[derive(Debug)]
pub struct WorkflowMetadata {
    pub description: Option<String>,
    pub author: Option<String>,
    pub created: Option<String>,
    pub tags: Option<Vec<String>>,
}

/// A node instance in a workflow.
#[derive(Debug)]
pub struct NodeInstance {
    pub id: String,
    pub node_fqdn: String,
    /// Literal inputs (action nodes).
    pub inputs: Option<StrMap<JsonValue>>,
    /// The literal value (primitive nodes).
    pub value: Option<JsonValue>,
}

/// What the structural check finds wrong.
#[derive(Debug)]
pub enum StructureError {
    /// The file could not be read.
    Io(String),
    /// The file is no workflow definition.
    Json(String),
    /// The version is not supported.
    Version(String),
    /// The number of `sys:start` nodes, when it is not one.
    StartNodeCount(usize),
    /// An edge names this node, which is not declared.
    MissingNode(String),
    /// An edge has a blank port name.
    EmptyPort,
}

/// What the full check finds wrong.
#[derive(Debug)]
pub enum WorkflowError {
    Structure(StructureError),
    /// The file could not be read.
    Io(String),
    /// The file is no workflow definition.
    Json(String),
    /// The definition does not fit the plugins or the format.
    Validation(String),
    /// There is no `sys:start` node.
    MissingStartNode,
    /// A node could not be executed.
    Execution,
}

/// Number of instances with FQDN `sys:start`.
pub open spec fn start_count(ns: Seq<NodeInstance>) -> nat
    decreases ns.len(),
{
    if ns.len() == 0 {
        0
    } else {
        start_count(ns.drop_last()) + if ns.last().node_fqdn@ == "sys:start"@ { 1nat } else { 0nat }
    }
}

/// Whether some instance has id `k`.
pub open spec fn declares(ns: Seq<NodeInstance>, k: Seq<char>) -> bool {
    exists|i: int| 0 <= i < ns.len() && #[trigger] ns[i].id@ == k
}

/// What is wrong with an edge, structurally.
pub enum EdgeFault {
    MissingFrom,
    MissingTo,
    EmptyPort,
}

/// The structural fault of an edge, checked in this order: unknown source,
/// unknown target, blank port name.
pub open spec fn edge_fault(e: EdgeDefinition, ns: Seq<NodeInstance>) -> Option<EdgeFault> {
    if !declares(ns, e.from_node@) {
        Some(EdgeFault::MissingFrom)
    } else if !declares(ns, e.to_node@) {
        Some(EdgeFault::MissingTo)
    } else if is_blank_text(e.from_output@) || is_blank_text(e.to_input@) {
        Some(EdgeFault::EmptyPort)
    } else {
        None
    }
}

/// The first edge, from index `i` on, with a structural fault.
pub open spec fn first_fault_from(es: Seq<EdgeDefinition>, ns: Seq<NodeInstance>, i: int) -> Option<int>
    decreases es.len() - i,
{
    if i < 0 || i >= es.len() {
        None
    } else if edge_fault(es[i], ns) is Some {
        Some(i)
    } else {
        first_fault_from(es, ns, i + 1)
    }
}

/// The error the structural check gives for a fault of edge `e`.
pub open spec fn fault_error(e: EdgeDefinition, f: EdgeFault, err: StructureError) -> bool {
    match f {
        EdgeFault::MissingFrom => err matches StructureError::MissingNode(n) && n@ == e.from_node@,
        EdgeFault::MissingTo => err matches StructureError::MissingNode(n) && n@ == e.to_node@,
        EdgeFault::EmptyPort => err is EmptyPort,
    }
}

/// The outcome of the structural check: exactly one `sys:start` node, then
/// every edge between declared nodes with non-blank port names (the first
/// faulty edge decides the error).
pub open spec fn structure_outcome(def: WorkflowDefinition, r: Result<(), StructureError>) -> bool {
    let n = start_count(def.nodes@);
    if n != 1 {
        r matches Err(StructureError::StartNodeCount(c)) && c == n
    } else {
        match first_fault_from(def.edges@, def.nodes@, 0) {
            None => r is Ok,
            Some(i) => r matches Err(err) && fault_error(def.edges@[i], edge_fault(def.edges@[i], def.nodes@)->0, err),
        }
    }
}

fn count_starts(ns: &Vec<NodeInstance>) -> (r: usize)
    ensures
        r == start_count(ns@),
{
    let mut k: usize = 0;
    let mut i: usize = 0;
    while i < ns.len()
        invariant
            i <= ns@.len(),
            k == start_count(ns@.take(i as int)),
            k <= i,
        decreases ns@.len() - i,
    {
        assert(ns@.take(i + 1).drop_last() =~= ns@.take(i as int));
        if str_eq(ns[i].node_fqdn.as_str(), "sys:start") {
            k = k + 1;
        }
        i = i + 1;
    }
    assert(ns@.take(ns@.len() as int) =~= ns@);
    k
}

/// Whether some instance of `ns` has id `k`.
fn has_node(ns: &Vec<NodeInstance>, k: &str) -> (r: bool)
    ensures
        r == declares(ns@, k@),
{
    let mut i: usize = 0;
    while i < ns.len()
        invariant
            i <= ns@.len(),
            forall|j: int| 0 <= j < i ==> (#[trigger] ns@[j]).id@ != k@,
        decreases ns@.len() - i,
    {
        if str_eq(ns[i].id.as_str(), k) {
            return true;
        }
        i = i + 1;
    }
    false
}

proof fn lemma_no_fault_before(es: Seq<EdgeDefinition>, ns: Seq<NodeInstance>, i: int)
    requires
        0 <= i <= es.len(),
        forall|j: int| 0 <= j < i ==> edge_fault(#[trigger] es[j], ns) is None,
    ensures
        first_fault_from(es, ns, 0) == first_fault_from(es, ns, i),
    decreases i,
{
    if i > 0 {
        lemma_no_fault_before(es, ns, i - 1);
    }
}

/// The structural check of a workflow definition.
pub fn check_structure(def: &WorkflowDefinition) -> (r: Result<(), StructureError>)
    ensures
        structure_outcome(*def, r),
{
    let n = count_starts(&def.nodes);
    if n != 1 {
        return Err(StructureError::StartNodeCount(n));
    }
    let mut i: usize = 0;
    while i < def.edges.len()
        invariant
            i <= def.edges@.len(),
            start_count(def.nodes@) == 1,
            forall|j: int| 0 <= j < i ==> edge_fault(#[trigger] def.edges@[j], def.nodes@) is None,
        decreases def.edges@.len() - i,
    {
        let e = &def.edges[i];
        proof {
            lemma_no_fault_before(def.edges@, def.nodes@, i as int);
        }
        if !has_node(&def.nodes, e.from_node.as_str()) {
            return Err(StructureError::MissingNode(e.from_node.clone()));
        }
        if !has_node(&def.nodes, e.to_node.as_str()) {
            return Err(StructureError::MissingNode(e.to_node.clone()));
        }
        if is_blank(e.from_output.as_str()) || is_blank(e.to_input.as_str()) {
            return Err(StructureError::EmptyPort);
        }
        i = i + 1;
    }
    proof {
        lemma_no_fault_before(def.edges@, def.nodes@, i as int);
    }
    Ok(())
}

/// The first index in `i..n` where `p` holds.
pub open spec fn first_where(n: int, p: spec_fn(int) -> bool, i: int) -> Option<int>
    decreases n - i,
{
    if i < 0 || i >= n {
        None
    } else if p(i) {
        Some(i)
    } else {
        first_where(n, p, i + 1)
    }
}

proof fn lemma_first_where_skip(n: int, p: spec_fn(int) -> bool, i: int)
    requires
        0 <= i <= n,
        forall|j: int| 0 <= j < i ==> !#[trigger] p(j),
    ensures
        first_where(n, p, 0) == first_where(n, p, i),
    decreases i,
{
    if i > 0 {
        lemma_first_where_skip(n, p, i - 1);
    }
}

/// Instance `i` repeats the id of an earlier instance.
pub open spec fn repeats_id(ns: Seq<NodeInstance>, i: int) -> bool {
    exists|j: int| 0 <= j < i && #[trigger] ns[j].id@ == ns[i].id@
}

/// Edge `e` names a node that is not declared.
pub open spec fn dangles(e: EdgeDefinition, ns: Seq<NodeInstance>) -> bool {
    !declares(ns, e.from_node@) || !declares(ns, e.to_node@)
}

/// The namespace part of a node FQDN.
pub open spec fn namespace_of(fqdn: Seq<char>) -> Seq<char> {
    before_first(fqdn, ':')
}

/// The types a node specification refers to: those of its inputs, then
/// those of its outputs.
pub open spec fn type_refs(s: NodeSpec) -> Seq<Seq<char>> {
    s.inputs@.map_values(|f: IOField| f.field_type@) + s.outputs@.map_values(|f: IOField| f.field_type@)
}

/// A type that no loaded plugin declares (the types of `sys` are built in).
pub open spec fn type_unknown(t: Seq<char>, plugins: Map<Seq<char>, Plugin>) -> bool {
    namespace_of(t) != "sys"@ && !(plugins.dom().contains(namespace_of(t))
        && plugins[namespace_of(t)].types@.dom().contains(t))
}

/// The position of the first type that `s` refers to and no loaded plugin declares.
pub open spec fn first_unknown_type(s: NodeSpec, plugins: Map<Seq<char>, Plugin>) -> Option<int> {
    first_where(type_refs(s).len() as int, |i: int| type_unknown(type_refs(s)[i], plugins), 0)
}

/// A node FQDN that is not `namespace:name`; or, outside the built-in
/// namespace `sys`, one whose plugin is not loaded, whose plugin does not
/// declare the node, or whose specification refers to a type that no
/// loaded plugin declares.
pub open spec fn fqdn_fault(fqdn: Seq<char>, plugins: Map<Seq<char>, Plugin>) -> bool {
    let ns = namespace_of(fqdn);
    ||| count_char(fqdn, ':') != 1
    ||| ns != "sys"@ && !plugins.dom().contains(ns)
    ||| ns != "sys"@ && !plugins[ns].nodes@.dom().contains(fqdn)
    ||| ns != "sys"@ && first_unknown_type(plugins[ns].nodes@[fqdn], plugins) is Some
}

/// The outcome of the full check of a workflow definition, in this order:
/// the structural check; version `1.0`; distinct node ids; edges between
/// declared nodes; well-formed FQDNs of nodes that loaded plugins declare,
/// whose types loaded plugins declare.
pub open spec fn workflow_outcome(
    def: WorkflowDefinition,
    plugins: Map<Seq<char>, crate::plugin_manager::Plugin>,
    r: Result<WorkflowDefinition, WorkflowError>,
) -> bool {
    let ns = def.nodes@;
    let es = def.edges@;
    let dup = first_where(ns.len() as int, |i: int| repeats_id(ns, i), 0);
    let dangling = first_where(es.len() as int, |i: int| dangles(es[i], ns), 0);
    let bad = first_where(ns.len() as int, |i: int| fqdn_fault(ns[i].node_fqdn@, plugins), 0);
    if start_count(ns) != 1 || first_fault_from(es, ns, 0) is Some {
        r matches Err(WorkflowError::Structure(e)) && structure_outcome(def, Err(e))
    } else if def.version@ != "1.0"@ {
        r matches Err(WorkflowError::Validation(m)) && m@ == "Unsupported workflow version: "@ + def.version@
    } else if dup is Some {
        r matches Err(WorkflowError::Validation(m)) && m@ == "Duplicate node Id: "@ + ns[dup->0].id@
    } else if dangling is Some {
        let e = es[dangling->0];
        if !declares(ns, e.from_node@) {
            r matches Err(WorkflowError::Validation(m)) && m@ == "Edge from unknown node: "@ + e.from_node@
        } else {
            r matches Err(WorkflowError::Validation(m)) && m@ == "Edge to unknown node: "@ + e.to_node@
        }
    } else if bad is Some {
        let f = ns[bad->0].node_fqdn@;
        let p = plugins[namespace_of(f)];
        if count_char(f, ':') != 1 {
            r matches Err(WorkflowError::Validation(m)) && m@ == "Invalid FQDN: "@ + f
        } else if !plugins.dom().contains(namespace_of(f)) {
            r matches Err(WorkflowError::Validation(m)) && m@ == "Unknown plugin namespace: "@ + namespace_of(f)
        } else if !p.nodes@.dom().contains(f) {
            r matches Err(WorkflowError::Validation(m)) && m@ == "Unknown node: "@ + f
        } else {
            let spec = p.nodes@[f];
            r matches Err(WorkflowError::Validation(m))
                && m@ == "Unknown type: "@ + type_refs(spec)[first_unknown_type(spec, plugins)->0]
        }
    } else {
        r == Ok::<WorkflowDefinition, WorkflowError>(def)
    }
}


/// Whether no loaded plugin declares type `t`.
fn is_unknown_type(t: &str, plugins: &PluginManager) -> (r: bool)
    requires
        plugins.wf(),
    ensures
        r == type_unknown(t@, plugins.plugins@),
{
    let namespace = prefix_before(t, ':');
    if str_eq(namespace.as_str(), "sys") {
        return false;
    }
    match plugins.get(namespace.as_str()) {
        None => true,
        Some(p) => !p.types.contains_key(t),
    }
}

/// The first type that `spec` refers to and no loaded plugin declares.
fn unknown_type_of(spec: &NodeSpec, plugins: &PluginManager) -> (r: Option<String>)
    requires
        plugins.wf(),
    ensures
        match r {
            Some(t) => first_unknown_type(*spec, plugins.plugins@) matches Some(i)
                && t@ == type_refs(*spec)[i],
            None => first_unknown_type(*spec, plugins.plugins@) is None,
        },
{
    let ghost refs = type_refs(*spec);
    let ghost p = |i: int| type_unknown(refs[i], plugins.plugins@);
    let ni = spec.inputs.len();
    let no = spec.outputs.len();
    let mut i: usize = 0;
    while i < ni
        invariant
            plugins.wf(),
            refs == type_refs(*spec),
            p == (|i: int| type_unknown(refs[i], plugins.plugins@)),
            ni == spec.inputs@.len(),
            i <= ni,
            forall|j: int| 0 <= j < i ==> !#[trigger] p(j),
        decreases ni - i,
    {
        assert(refs[i as int] == spec.inputs@[i as int].field_type@);
        if is_unknown_type(spec.inputs[i].field_type.as_str(), plugins) {
            proof {
                lemma_first_where_skip(refs.len() as int, p, i as int);
            }
            return Some(spec.inputs[i].field_type.clone());
        }
        i = i + 1;
    }
    let mut k: usize = 0;
    while k < no
        invariant
            plugins.wf(),
            refs == type_refs(*spec),
            p == (|i: int| type_unknown(refs[i], plugins.plugins@)),
            ni == spec.inputs@.len(),
            no == spec.outputs@.len(),
            k <= no,
            forall|j: int| 0 <= j < ni + k ==> !#[trigger] p(j),
        decreases no - k,
    {
        assert(refs[ni + k] == spec.outputs@[k as int].field_type@);
        if is_unknown_type(spec.outputs[k].field_type.as_str(), plugins) {
            proof {
                lemma_first_where_skip(refs.len() as int, p, ni + k);
            }
            return Some(spec.outputs[k].field_type.clone());
        }
        k = k + 1;
    }
    proof {
        lemma_first_where_skip(refs.len() as int, p, refs.len() as int);
    }
    None
}

/// The full check of a workflow definition against the loaded plugins;
/// the definition comes back when it passes.
#[verifier::loop_isolation(false)]
pub fn validate_definition(def: WorkflowDefinition, plugins: &PluginManager) -> (r: Result<WorkflowDefinition, WorkflowError>)
    requires
        plugins.wf(),
    ensures
        workflow_outcome(def, plugins.plugins@, r),
{
    let ghost ns = def.nodes@;
    let ghost es = def.edges@;
    match check_structure(&def) {
        Err(e) => {
            return Err(WorkflowError::Structure(e));
        },
        Ok(()) => {},
    }
    if !str_eq(def.version.as_str(), "1.0") {
        return Err(WorkflowError::Validation(concat("Unsupported workflow version: ", def.version.as_str())));
    }
    let ghost dup_p = |i: int| repeats_id(ns, i);
    let mut i: usize = 0;
    while i < def.nodes.len()
        invariant
            ns == def.nodes@,
            i <= ns.len(),
            dup_p == (|i: int| repeats_id(ns, i)),
            forall|j: int| 0 <= j < i ==> !#[trigger] dup_p(j),
        decreases ns.len() - i,
    {
        let mut j: usize = 0;
        while j < i
            invariant
                ns == def.nodes@,
                j <= i < ns.len(),
                forall|t: int| 0 <= t < j ==> (#[trigger] ns[t]).id@ != ns[i as int].id@,
            decreases i - j,
        {
            if str_eq(def.nodes[j].id.as_str(), def.nodes[i].id.as_str()) {
                proof {
                    lemma_first_where_skip(ns.len() as int, dup_p, i as int);
                    assert(dup_p(i as int));
                }
                return Err(WorkflowError::Validation(concat("Duplicate node Id: ", def.nodes[i].id.as_str())));
            }
            j = j + 1;
        }
        i = i + 1;
    }
    proof {
        lemma_first_where_skip(ns.len() as int, dup_p, ns.len() as int);
    }
    let ghost dangling_p = |i: int| dangles(es[i], ns);
    let mut k: usize = 0;
    while k < def.edges.len()
        invariant
            ns == def.nodes@,
            es == def.edges@,
            k <= es.len(),
            dangling_p == (|i: int| dangles(es[i], ns)),
            forall|j: int| 0 <= j < k ==> !#[trigger] dangling_p(j),
        decreases es.len() - k,
    {
        let e = &def.edges[k];
        if !has_node(&def.nodes, e.from_node.as_str()) {
            proof {
                lemma_first_where_skip(es.len() as int, dangling_p, k as int);
            }
            return Err(WorkflowError::Validation(concat("Edge from unknown node: ", e.from_node.as_str())));
        }
        if !has_node(&def.nodes, e.to_node.as_str()) {
            proof {
                lemma_first_where_skip(es.len() as int, dangling_p, k as int);
            }
            return Err(WorkflowError::Validation(concat("Edge to unknown node: ", e.to_node.as_str())));
        }
        k = k + 1;
    }
    proof {
        lemma_first_where_skip(es.len() as int, dangling_p, es.len() as int);
    }
    let ghost bad_p = |i: int| fqdn_fault(ns[i].node_fqdn@, plugins.plugins@);
    let mut m: usize = 0;
    while m < def.nodes.len()
        invariant
            ns == def.nodes@,
            plugins.wf(),
            m <= ns.len(),
            bad_p == (|i: int| fqdn_fault(ns[i].node_fqdn@, plugins.plugins@)),
            forall|j: int| 0 <= j < m ==> !#[trigger] bad_p(j),
        decreases ns.len() - m,
    {
        let f = def.nodes[m].node_fqdn.as_str();
        if count_of(f, ':') != 1 {
            proof {
                lemma_first_where_skip(ns.len() as int, bad_p, m as int);
            }
            return Err(WorkflowError::Validation(concat("Invalid FQDN: ", f)));
        }
        let namespace = prefix_before(f, ':');
        if !str_eq(namespace.as_str(), "sys") {
            match plugins.get(namespace.as_str()) {
                None => {
                    proof {
                        lemma_first_where_skip(ns.len() as int, bad_p, m as int);
                    }
                    return Err(WorkflowError::Validation(concat("Unknown plugin namespace: ", namespace.as_str())));
                },
                Some(p) => match p.nodes.get(f) {
                    None => {
                        proof {
                            lemma_first_where_skip(ns.len() as int, bad_p, m as int);
                        }
                        return Err(WorkflowError::Validation(concat("Unknown node: ", f)));
                    },
                    Some(spec) => match unknown_type_of(spec, plugins) {
                        Some(t) => {
                            proof {
                                lemma_first_where_skip(ns.len() as int, bad_p, m as int);
                            }
                            return Err(WorkflowError::Validation(concat("Unknown type: ", t.as_str())));
                        },
                        None => {},
                    },
                },
            }
        }
        m = m + 1;
    }
    proof {
        lemma_first_where_skip(ns.len() as int, bad_p, ns.len() as int);
    }
    Ok(def)
}

proof fn lemma_first_where_none(n: int, p: spec_fn(int) -> bool, i: int)
    requires
        0 <= i,
        first_where(n, p, i) is None,
    ensures
        forall|j: int| i <= j < n ==> !#[trigger] p(j),
    decreases n - i,
{
    if i < n {
        lemma_first_where_none(n, p, i + 1);
    }
}

proof fn lemma_first_where_some(n: int, p: spec_fn(int) -> bool, i: int)
    requires
        0 <= i,
        first_where(n, p, i) is Some,
    ensures
        i <= first_where(n, p, i)->0 < n,
        p(first_where(n, p, i)->0),
        forall|j: int| i <= j < first_where(n, p, i)->0 ==> !#[trigger] p(j),
    decreases n - i,
{
    if i < n && !p(i) {
        lemma_first_where_some(n, p, i + 1);
    }
}

/// A workflow definition is accepted only when no two of its nodes share an
/// id. When two nodes do share one, and the checks before (structure and
/// version) pass, it is refused with a validation error that names the id
/// of the first node whose id an earlier node already has.
pub proof fn law_accepted_workflows_have_distinct_ids(
    def: WorkflowDefinition,
    plugins: Map<Seq<char>, Plugin>,
    r: Result<WorkflowDefinition, WorkflowError>,
)
    requires
        workflow_outcome(def, plugins, r),
    ensures
        r is Ok ==> forall|i: int, j: int| 0 <= i < j < def.nodes@.len() ==> def.nodes@[i].id@ != def.nodes@[j].id@,
        start_count(def.nodes@) == 1 && first_fault_from(def.edges@, def.nodes@, 0) is None && def.version@ == "1.0"@
            && (exists|i: int, j: int| 0 <= i < j < def.nodes@.len() && def.nodes@[i].id@ == def.nodes@[j].id@)
            ==> (r matches Err(WorkflowError::Validation(m)) && exists|j: int| {
                &&& 0 <= j < def.nodes@.len()
                &&& m@ == "Duplicate node Id: "@ + def.nodes@[j].id@
                &&& exists|i: int| 0 <= i < j && def.nodes@[i].id@ == def.nodes@[j].id@
                &&& forall|j2: int, i2: int| 0 <= i2 < j2 < j ==> def.nodes@[i2].id@ != def.nodes@[j2].id@
            }),
{
    let ns = def.nodes@;
    let p = |i: int| repeats_id(ns, i);
    let dup = first_where(ns.len() as int, p, 0);
    if dup is None {
        lemma_first_where_none(ns.len() as int, p, 0);
        assert forall|i: int, j: int| 0 <= i < j < ns.len() implies ns[i].id@ != ns[j].id@ by {
            assert(!p(j));
        }
    } else {
        lemma_first_where_some(ns.len() as int, p, 0);
        let j = dup->0;
        assert(p(j));
        assert forall|j2: int, i2: int| 0 <= i2 < j2 < j implies ns[i2].id@ != ns[j2].id@ by {
            assert(!p(j2));
        }
        if exists|i: int, j: int| 0 <= i < j < ns.len() && ns[i].id@ == ns[j].id@ {
            if start_count(ns) == 1 && first_fault_from(def.edges@, ns, 0) is None && def.version@ == "1.0"@ {
                let m = r->Err_0->Validation_0;
                assert(m@ == "Duplicate node Id: "@ + ns[j].id@);
            }
        }
    }
}

proof fn lemma_no_fault_from(es: Seq<EdgeDefinition>, ns: Seq<NodeInstance>, i: int)
    requires
        0 <= i,
        first_fault_from(es, ns, i) is None,
    ensures
        forall|j: int| i <= j < es.len() ==> edge_fault(#[trigger] es[j], ns) is None,
    decreases es.len() - i,
{
    if i < es.len() {
        lemma_no_fault_from(es, ns, i + 1);
    }
}

proof fn lemma_one_start(ns: Seq<NodeInstance>)
    requires
        start_count(ns) == 1,
    ensures
        exists|i: int| 0 <= i < ns.len() && #[trigger] ns[i].node_fqdn@ == "sys:start"@
            && forall|j: int| 0 <= j < ns.len() && j != i ==> (#[trigger] ns[j]).node_fqdn@ != "sys:start"@,
    decreases ns.len(),
{
    let pre = ns.drop_last();
    if ns.last().node_fqdn@ == "sys:start"@ {
        lemma_no_start(pre);
        let i = ns.len() - 1;
        assert forall|j: int| 0 <= j < ns.len() && j != i implies (#[trigger] ns[j]).node_fqdn@ != "sys:start"@ by {
            assert(pre[j] == ns[j]);
        }
    } else {
        lemma_one_start(pre);
        let i = choose|i: int| 0 <= i < pre.len() && #[trigger] pre[i].node_fqdn@ == "sys:start"@
            && forall|j: int| 0 <= j < pre.len() && j != i ==> (#[trigger] pre[j]).node_fqdn@ != "sys:start"@;
        assert(ns[i] == pre[i]);
        assert forall|j: int| 0 <= j < ns.len() && j != i implies (#[trigger] ns[j]).node_fqdn@ != "sys:start"@ by {
            if j < ns.len() - 1 {
                assert(pre[j] == ns[j]);
            }
        }
    }
}

proof fn lemma_no_start(ns: Seq<NodeInstance>)
    requires
        start_count(ns) == 0,
    ensures
        forall|j: int| 0 <= j < ns.len() ==> (#[trigger] ns[j]).node_fqdn@ != "sys:start"@,
    decreases ns.len(),
{
    if ns.len() > 0 {
        lemma_no_start(ns.drop_last());
        assert forall|j: int| 0 <= j < ns.len() implies (#[trigger] ns[j]).node_fqdn@ != "sys:start"@ by {
            if j < ns.len() - 1 {
                assert(ns.drop_last()[j] == ns[j]);
            }
        }
    }
}

/// A workflow definition that is accepted comes back as it was, and holds
/// together: exactly one node is `sys:start`; its version is `1.0`; every
/// edge joins nodes that the definition declares, by non-blank port names;
/// every node's FQDN is `namespace:name`, and outside `sys` its plugin is
/// loaded, declares the node, and every type the node's specification uses
/// is built in or declared by a loaded plugin.
pub proof fn law_accepted_workflows_hold_together(
    def: WorkflowDefinition,
    plugins: Map<Seq<char>, Plugin>,
    r: Result<WorkflowDefinition, WorkflowError>,
)
    requires
        workflow_outcome(def, plugins, r),
        r is Ok,
    ensures
        r == Ok::<WorkflowDefinition, WorkflowError>(def),
        exists|i: int| 0 <= i < def.nodes@.len() && #[trigger] def.nodes@[i].node_fqdn@ == "sys:start"@
            && forall|j: int| 0 <= j < def.nodes@.len() && j != i ==> (#[trigger] def.nodes@[j]).node_fqdn@ != "sys:start"@,
        def.version@ == "1.0"@,
        forall|k: int| 0 <= k < def.edges@.len() ==> {
            let e = #[trigger] def.edges@[k];
            &&& exists|i: int| 0 <= i < def.nodes@.len() && #[trigger] def.nodes@[i].id@ == e.from_node@
            &&& exists|i: int| 0 <= i < def.nodes@.len() && #[trigger] def.nodes@[i].id@ == e.to_node@
            &&& !is_blank_text(e.from_output@) && !is_blank_text(e.to_input@)
        },
        forall|i: int| 0 <= i < def.nodes@.len() ==> {
            let f = (#[trigger] def.nodes@[i]).node_fqdn@;
            let n = before_first(f, ':');
            &&& count_char(f, ':') == 1
            &&& n != "sys"@ ==> {
                &&& plugins.dom().contains(n)
                &&& plugins[n].nodes@.dom().contains(f)
                &&& forall|t: int| 0 <= t < type_refs(plugins[n].nodes@[f]).len() ==> {
                    let ty = #[trigger] type_refs(plugins[n].nodes@[f])[t];
                    before_first(ty, ':') == "sys"@ || (plugins.dom().contains(before_first(ty, ':'))
                        && plugins[before_first(ty, ':')].types@.dom().contains(ty))
                }
            }
        },
{
    let ns = def.nodes@;
    let es = def.edges@;
    lemma_one_start(ns);
    lemma_no_fault_from(es, ns, 0);
    let bad_p = |i: int| fqdn_fault(ns[i].node_fqdn@, plugins);
    lemma_first_where_none(ns.len() as int, bad_p, 0);
    assert forall|i: int| 0 <= i < ns.len() implies !fqdn_fault(#[trigger] ns[i].node_fqdn@, plugins) by {
        assert(!bad_p(i));
    }
    assert forall|i: int| 0 <= i < ns.len() implies ({
        let f = (#[trigger] ns[i]).node_fqdn@;
        let n = before_first(f, ':');
        n != "sys"@ ==> forall|t: int| 0 <= t < type_refs(plugins[n].nodes@[f]).len() ==> {
            let ty = #[trigger] type_refs(plugins[n].nodes@[f])[t];
            before_first(ty, ':') == "sys"@ || (plugins.dom().contains(before_first(ty, ':'))
                && plugins[before_first(ty, ':')].types@.dom().contains(ty))
        }
    }) by {
        let f = ns[i].node_fqdn@;
        let n = before_first(f, ':');
        assert(!fqdn_fault(f, plugins));
        if n != "sys"@ {
            let sp = plugins[n].nodes@[f];
            let tp = |t: int| type_unknown(type_refs(sp)[t], plugins);
            lemma_first_where_none(type_refs(sp).len() as int, tp, 0);
            assert forall|t: int| 0 <= t < type_refs(sp).len() implies !type_unknown(#[trigger] type_refs(sp)[t], plugins) by {
                assert(!tp(t));
            }
        }
    }
    assert forall|k: int| 0 <= k < es.len() implies ({
        let e = #[trigger] es[k];
        &&& exists|i: int| 0 <= i < ns.len() && #[trigger] ns[i].id@ == e.from_node@
        &&& exists|i: int| 0 <= i < ns.len() && #[trigger] ns[i].id@ == e.to_node@
        &&& !is_blank_text(e.from_output@) && !is_blank_text(e.to_input@)
    }) by {
        assert(edge_fault(es[k], ns) is None);
    }
}

/// The structural check passes exactly when one node is `sys:start` and
/// every edge joins declared nodes by non-blank port names. When the start
/// nodes are not exactly one, it reports how many there are.
pub proof fn law_structure_check(def: WorkflowDefinition, r: Result<(), StructureError>)
    requires
        structure_outcome(def, r),
    ensures
        r is Ok ==> (exists|i: int| 0 <= i < def.nodes@.len() && #[trigger] def.nodes@[i].node_fqdn@ == "sys:start"@
            && forall|j: int| 0 <= j < def.nodes@.len() && j != i ==> (#[trigger] def.nodes@[j]).node_fqdn@ != "sys:start"@),
        r is Ok ==> forall|k: int| 0 <= k < def.edges@.len() ==> {
            let e = #[trigger] def.edges@[k];
            &&& exists|i: int| 0 <= i < def.nodes@.len() && #[trigger] def.nodes@[i].id@ == e.from_node@
            &&& exists|i: int| 0 <= i < def.nodes@.len() && #[trigger] def.nodes@[i].id@ == e.to_node@
            &&& !is_blank_text(e.from_output@) && !is_blank_text(e.to_input@)
        },
        r matches Err(StructureError::StartNodeCount(c)) ==> c != 1 && c == start_count(def.nodes@),
        start_count(def.nodes@) == 0 ==> (r matches Err(StructureError::StartNodeCount(c)) && c == 0
            && forall|j: int| 0 <= j < def.nodes@.len() ==> (#[trigger] def.nodes@[j]).node_fqdn@ != "sys:start"@),
{
    let ns = def.nodes@;
    let es = def.edges@;
    if start_count(ns) == 1 {
        lemma_one_start(ns);
        if first_fault_from(es, ns, 0) is None {
            lemma_no_fault_from(es, ns, 0);
            assert forall|k: int| 0 <= k < es.len() implies ({
                let e = #[trigger] es[k];
                &&& exists|i: int| 0 <= i < ns.len() && #[trigger] ns[i].id@ == e.from_node@
                &&& exists|i: int| 0 <= i < ns.len() && #[trigger] ns[i].id@ == e.to_node@
                &&& !is_blank_text(e.from_output@) && !is_blank_text(e.to_input@)
            }) by {
                assert(edge_fault(es[k], ns) is None);
            }
        }
    }
    if start_count(ns) == 0 {
        lemma_no_start(ns);
    }
}

} // verus!
