//! The dependency graph of a job: its nodes and the edges between them,
//! held in a petgraph graph, with questions about start, end and
//! neighbouring nodes.

use vstd::prelude::*;
use petgraph::graph::{DiGraph, NodeIndex};
use petgraph::graph::Graph as PetGraph;
use petgraph::visit::EdgeRef;
use petgraph::Direction;
use crate::models::{Job, Node, Edge, NodeStatus};
use crate::json::JsonView;
use crate::strmap::{StrMap, lemma_entries_map_at, lemma_entries_map_dom};
use crate::engine::job_manager::{deps_satisfied, node_ids, last_node_with, action_ids, lemma_node_ids_step, lemma_last_node_with, lemma_seq_push_contains};
use crate::system_plugin::{is_start_node, is_end_node};
use crate::text::str_eq;

verus! {

#[verifier::external_type_specification]
#[verifier::external_body]
#[verifier::reject_recursive_types(N)]
#[verifier::reject_recursive_types(E)]
#[verifier::reject_recursive_types(Ty)]
#[verifier::reject_recursive_types(Ix)]
pub struct ExPetGraph<N, E, Ty, Ix>(PetGraph<N, E, Ty, Ix>);

#[verifier::external_type_specification]
#[verifier::external_body]
pub struct ExDirected(petgraph::Directed);

/// The edges of a graph, in the order they were added: source index,
/// target index and weight.
pub uninterp spec fn graph_edges(g: DiGraph<String, String>) -> Seq<(nat, nat, Seq<char>)>;

/// The number of nodes of a graph.
pub uninterp spec fn graph_node_count(g: DiGraph<String, String>) -> nat;

/// `petgraph::Graph::new`: a graph with no node and no edge.
#[verifier::external_body]
fn graph_new() -> (g: DiGraph<String, String>)
    ensures
        graph_node_count(g) == 0,
        graph_edges(g) == Seq::<(nat, nat, Seq<char>)>::empty(),
{
    DiGraph::new()
}

/// `petgraph::Graph::add_node`: appends a node, whose index is the former
/// node count, and leaves the edges as they were. It panics at the
/// `u32` index limit, which `requires` rules out.
#[verifier::external_body]
fn graph_add_node(g: &mut DiGraph<String, String>, weight: String) -> (i: usize)
    requires
        graph_node_count(*old(g)) < u32::MAX,
    ensures
        i == graph_node_count(*old(g)),
        graph_node_count(*final(g)) == graph_node_count(*old(g)) + 1,
        graph_edges(*final(g)) == graph_edges(*old(g)),
{
    g.add_node(weight).index()
}

/// `petgraph::Graph::add_edge`: appends the edge from node `a` to node
/// `b` with its weight. It panics on a missing node and at the `u32`
/// index limit, which `requires` rules out.
#[verifier::external_body]
fn graph_add_edge(g: &mut DiGraph<String, String>, a: usize, b: usize, weight: String)
    requires
        a < graph_node_count(*old(g)),
        b < graph_node_count(*old(g)),
        graph_edges(*old(g)).len() < u32::MAX,
    ensures
        graph_node_count(*final(g)) == graph_node_count(*old(g)),
        graph_edges(*final(g)) == graph_edges(*old(g)).push((a as nat, b as nat, weight@)),
{
    g.add_edge(NodeIndex::new(a), NodeIndex::new(b), weight);
}

/// The sources of the edges into node `a`, the most recently added first.
pub open spec fn sources_into(es: Seq<(nat, nat, Seq<char>)>, a: nat) -> Seq<nat>
    decreases es.len(),
{
    if es.len() == 0 {
        Seq::empty()
    } else {
        let rest = sources_into(es.drop_last(), a);
        if es.last().1 == a {
            seq![es.last().0] + rest
        } else {
            rest
        }
    }
}

/// The targets of the edges out of node `a`, the most recently added first.
pub open spec fn targets_from(es: Seq<(nat, nat, Seq<char>)>, a: nat) -> Seq<nat>
    decreases es.len(),
{
    if es.len() == 0 {
        Seq::empty()
    } else {
        let rest = targets_from(es.drop_last(), a);
        if es.last().0 == a {
            seq![es.last().1] + rest
        } else {
            rest
        }
    }
}

/// `petgraph::Graph::edges_directed` with `Incoming`, each edge taken by
/// its source index: for a directed graph, the edges into `a` in reverse
/// order of addition.
#[verifier::external_body]
fn graph_sources_into(g: &DiGraph<String, String>, a: usize) -> (r: Vec<usize>)
    requires
        a < graph_node_count(*g),
    ensures
        r@.len() == sources_into(graph_edges(*g), a as nat).len(),
        forall|i: int| 0 <= i < r@.len() ==> r@[i] as nat == sources_into(graph_edges(*g), a as nat)[i],
{
    g.edges_directed(NodeIndex::new(a), Direction::Incoming).map(|e| e.source().index()).collect()
}

/// `petgraph::Graph::edges_directed` with `Outgoing`, each edge taken by
/// its target index: for a directed graph, the edges out of `a` in reverse
/// order of addition.
#[verifier::external_body]
fn graph_targets_from(g: &DiGraph<String, String>, a: usize) -> (r: Vec<usize>)
    requires
        a < graph_node_count(*g),
    ensures
        r@.len() == targets_from(graph_edges(*g), a as nat).len(),
        forall|i: int| 0 <= i < r@.len() ==> r@[i] as nat == targets_from(graph_edges(*g), a as nat)[i],
{
    g.edges_directed(NodeIndex::new(a), Direction::Outgoing).map(|e| e.target().index()).collect()
}

/// The index of node id `k` in the graph of a job with nodes `ns`: that of
/// the last node with that id.
pub open spec fn node_index(ns: Seq<Node>, k: Seq<char>) -> nat {
    match last_node_with(ns, k) {
        Some(i) => i as nat,
        None => 0,
    }
}

/// The graph edges of a job: each edge between two node ids, from the
/// index of its source to that of its target, weighted by its source port.
pub open spec fn dep_edges(es: Seq<Edge>, ns: Seq<Node>) -> Seq<(nat, nat, Seq<char>)>
    decreases es.len(),
{
    if es.len() == 0 {
        Seq::empty()
    } else {
        let rest = dep_edges(es.drop_last(), ns);
        let e = es.last();
        if node_ids(ns).contains(e.from@) && node_ids(ns).contains(e.to@) {
            rest.push((node_index(ns, e.from@), node_index(ns, e.to@), e.from_port@))
        } else {
            rest
        }
    }
}


/// The texts a list of strings holds.
pub open spec fn text_set(v: Seq<String>) -> Set<Seq<char>> {
    Set::new(|k: Seq<char>| exists|i: int| 0 <= i < v.len() && #[trigger] v[i]@ == k)
}

/// No text occurs twice in `v`.
pub open spec fn distinct_texts(v: Seq<String>) -> bool {
    forall|i: int, j: int| 0 <= i < v.len() && 0 <= j < v.len() && i != j ==> #[trigger] v[i]@ != #[trigger] v[j]@
}

/// An edge of the job between two node ids.
pub open spec fn between_ids(e: Edge, ns: Seq<Node>) -> bool {
    node_ids(ns).contains(e.from@) && node_ids(ns).contains(e.to@)
}

/// The node ids with no edge into them from a node id.
pub open spec fn ids_without_dependencies(es: Seq<Edge>, ns: Seq<Node>) -> Set<Seq<char>> {
    Set::new(|k: Seq<char>| node_ids(ns).contains(k)
        && !exists|i: int| 0 <= i < es.len() && #[trigger] es[i].to@ == k && between_ids(es[i], ns))
}

/// The sources of the edges into node id `t`, when `t` is a node id.
pub open spec fn dependencies_of(es: Seq<Edge>, ns: Seq<Node>, t: Seq<char>) -> Set<Seq<char>> {
    Set::new(|k: Seq<char>| node_ids(ns).contains(t) && exists|i: int| 0 <= i < es.len()
        && #[trigger] es[i].to@ == t && es[i].from@ == k && between_ids(es[i], ns))
}

/// The targets of the edges out of node id `t`, when `t` is a node id.
pub open spec fn dependents_of(es: Seq<Edge>, ns: Seq<Node>, t: Seq<char>) -> Set<Seq<char>> {
    Set::new(|k: Seq<char>| node_ids(ns).contains(t) && exists|i: int| 0 <= i < es.len()
        && #[trigger] es[i].from@ == t && es[i].to@ == k && between_ids(es[i], ns))
}

/// Distinct node ids have distinct indices.
proof fn lemma_index_injective(ns: Seq<Node>, a: Seq<char>, b: Seq<char>)
    requires
        node_ids(ns).contains(a),
        node_ids(ns).contains(b),
        node_index(ns, a) == node_index(ns, b),
    ensures
        a == b,
{
    lemma_last_node_with(ns, a);
    lemma_last_node_with(ns, b);
}

/// Which indices are sources of edges into the index of `t`.
proof fn lemma_sources_into_dep(es: Seq<Edge>, ns: Seq<Node>, t: Seq<char>, a: nat)
    requires
        node_ids(ns).contains(t),
    ensures
        sources_into(dep_edges(es, ns), node_index(ns, t)).contains(a) <==> exists|i: int| 0 <= i < es.len()
            && #[trigger] es[i].to@ == t && between_ids(es[i], ns) && node_index(ns, es[i].from@) == a,
    decreases es.len(),
{
    if es.len() > 0 {
        let init = es.drop_last();
        lemma_sources_into_dep(init, ns, t, a);
        let e = es.last();
        let rest = sources_into(dep_edges(init, ns), node_index(ns, t));
        if between_ids(e, ns) {
            assert(dep_edges(es, ns).drop_last() =~= dep_edges(init, ns));
        }
        if between_ids(e, ns) && node_index(ns, e.to@) == node_index(ns, t) {
            lemma_index_injective(ns, e.to@, t);
        }
        if between_ids(e, ns) && e.to@ == t {
            let full = sources_into(dep_edges(es, ns), node_index(ns, t));
            assert(full == seq![node_index(ns, e.from@)] + rest);
            assert(full[0] == node_index(ns, e.from@));
            if rest.contains(a) {
                let p = choose|p: int| 0 <= p < rest.len() && rest[p] == a;
                assert(full[p + 1] == a);
            }
            if full.contains(a) && a != node_index(ns, e.from@) {
                let p = choose|p: int| 0 <= p < full.len() && full[p] == a;
                assert(rest[p - 1] == a);
            }
        }
        if exists|i: int| 0 <= i < es.len() && #[trigger] es[i].to@ == t && between_ids(es[i], ns) && node_index(ns, es[i].from@) == a {
            let i = choose|i: int| 0 <= i < es.len() && #[trigger] es[i].to@ == t && between_ids(es[i], ns) && node_index(ns, es[i].from@) == a;
            if i < es.len() - 1 {
                assert(init[i].to@ == t);
            }
        }
        if exists|i: int| 0 <= i < init.len() && #[trigger] init[i].to@ == t && between_ids(init[i], ns) && node_index(ns, init[i].from@) == a {
            let i = choose|i: int| 0 <= i < init.len() && #[trigger] init[i].to@ == t && between_ids(init[i], ns) && node_index(ns, init[i].from@) == a;
            assert(es[i].to@ == t);
        }
    }
}

/// Which indices are targets of edges out of the index of `t`.
proof fn lemma_targets_from_dep(es: Seq<Edge>, ns: Seq<Node>, t: Seq<char>, a: nat)
    requires
        node_ids(ns).contains(t),
    ensures
        targets_from(dep_edges(es, ns), node_index(ns, t)).contains(a) <==> exists|i: int| 0 <= i < es.len()
            && #[trigger] es[i].from@ == t && between_ids(es[i], ns) && node_index(ns, es[i].to@) == a,
    decreases es.len(),
{
    if es.len() > 0 {
        let init = es.drop_last();
        lemma_targets_from_dep(init, ns, t, a);
        let e = es.last();
        let rest = targets_from(dep_edges(init, ns), node_index(ns, t));
        if between_ids(e, ns) {
            assert(dep_edges(es, ns).drop_last() =~= dep_edges(init, ns));
        }
        if between_ids(e, ns) && node_index(ns, e.from@) == node_index(ns, t) {
            lemma_index_injective(ns, e.from@, t);
        }
        if between_ids(e, ns) && e.from@ == t {
            let full = targets_from(dep_edges(es, ns), node_index(ns, t));
            assert(full == seq![node_index(ns, e.to@)] + rest);
            assert(full[0] == node_index(ns, e.to@));
            if rest.contains(a) {
                let p = choose|p: int| 0 <= p < rest.len() && rest[p] == a;
                assert(full[p + 1] == a);
            }
            if full.contains(a) && a != node_index(ns, e.to@) {
                let p = choose|p: int| 0 <= p < full.len() && full[p] == a;
                assert(rest[p - 1] == a);
            }
        }
        if exists|i: int| 0 <= i < es.len() && #[trigger] es[i].from@ == t && between_ids(es[i], ns) && node_index(ns, es[i].to@) == a {
            let i = choose|i: int| 0 <= i < es.len() && #[trigger] es[i].from@ == t && between_ids(es[i], ns) && node_index(ns, es[i].to@) == a;
            if i < es.len() - 1 {
                assert(init[i].from@ == t);
            }
        }
        if exists|i: int| 0 <= i < init.len() && #[trigger] init[i].from@ == t && between_ids(init[i], ns) && node_index(ns, init[i].to@) == a {
            let i = choose|i: int| 0 <= i < init.len() && #[trigger] init[i].from@ == t && between_ids(init[i], ns) && node_index(ns, init[i].to@) == a;
            assert(es[i].from@ == t);
        }
    }
}

/// The dependency graph of a job.
pub struct DependencyGraph<'a> {
    pub graph: DiGraph<String, String>,
    pub node_indices: StrMap<usize>,
    pub job: &'a Job,
}

impl<'a> DependencyGraph<'a> {
    /// The graph holds one node per node of the job, an index for each id
    /// (that of its last node), and the edges between known ids.
    pub open spec fn wf(&self) -> bool {
        &&& self.node_indices.wf()
        &&& self.node_indices@.dom() == node_ids(self.job.nodes@)
        &&& forall|k: Seq<char>| #[trigger] self.node_indices@.dom().contains(k)
            ==> last_node_with(self.job.nodes@, k) == Some(self.node_indices@[k] as int)
        &&& graph_node_count(self.graph) == self.job.nodes@.len()
        &&& graph_edges(self.graph) == dep_edges(self.job.edges@, self.job.nodes@)
    }

    /// Builds the dependency graph of `job`.
    pub fn new(job: &'a Job) -> (r: DependencyGraph<'a>)
        requires
            job.nodes@.len() < u32::MAX,
            job.edges@.len() < u32::MAX,
        ensures
            r.wf(),
            r.job == job,
    {
        let ns = &job.nodes;
        let mut graph = graph_new();
        let mut node_indices: StrMap<usize> = StrMap::new();
        let mut i: usize = 0;
        while i < ns.len()
            invariant
                i <= ns@.len(),
                ns@.len() < u32::MAX,
                graph_node_count(graph) == i,
                graph_edges(graph) == Seq::<(nat, nat, Seq<char>)>::empty(),
                node_indices.wf(),
                node_indices@.dom() == node_ids(ns@.take(i as int)),
                forall|k: Seq<char>| #[trigger] node_indices@.dom().contains(k)
                    ==> last_node_with(ns@.take(i as int), k) == Some(node_indices@[k] as int),
            decreases ns@.len() - i,
        {
            proof {
                lemma_node_ids_step(ns@, i as int);
                assert(ns@.take(i + 1).drop_last() =~= ns@.take(i as int));
                assert(ns@.take(i + 1).last() == ns@[i as int]);
            }
            let idx = graph_add_node(&mut graph, ns[i].id.clone());
            node_indices.insert(ns[i].id.clone(), idx);
            i = i + 1;
        }
        assert(ns@.take(ns@.len() as int) =~= ns@);
        let es = &job.edges;
        let mut j: usize = 0;
        while j < es.len()
            invariant
                j <= es@.len(),
                es@.len() < u32::MAX,
                graph_node_count(graph) == ns@.len(),
                graph_edges(graph) == dep_edges(es@.take(j as int), ns@),
                graph_edges(graph).len() <= j,
                node_indices.wf(),
                node_indices@.dom() == node_ids(ns@),
                forall|k: Seq<char>| #[trigger] node_indices@.dom().contains(k)
                    ==> last_node_with(ns@, k) == Some(node_indices@[k] as int),
            decreases es@.len() - j,
        {
            proof {
                assert(es@.take(j + 1).drop_last() =~= es@.take(j as int));
                assert(es@.take(j + 1).last() == es@[j as int]);
            }
            let e = &es[j];
            match (node_indices.get(e.from.as_str()), node_indices.get(e.to.as_str())) {
                (Some(from_idx), Some(to_idx)) => {
                    proof {
                        lemma_last_node_with(ns@, e.from@);
                        lemma_last_node_with(ns@, e.to@);
                    }
                    graph_add_edge(&mut graph, *from_idx, *to_idx, e.from_port.clone());
                },
                _ => {},
            }
            j = j + 1;
        }
        assert(es@.take(es@.len() as int) =~= es@);
        DependencyGraph { graph, node_indices, job }
    }
}



/// Node `b` is a dependency of node `a` exactly when `a` is a dependent
/// of `b`, and that is exactly when both are node ids and an edge of the
/// job leads from `b` to `a`; a text that is no node id has neither
/// dependencies nor dependents.
pub proof fn law_dependencies_mirror_dependents(es: Seq<Edge>, ns: Seq<Node>, a: Seq<char>, b: Seq<char>)
    ensures
        dependencies_of(es, ns, a).contains(b) <==> dependents_of(es, ns, b).contains(a),
        dependents_of(es, ns, b).contains(a) <==> (node_ids(ns).contains(a) && node_ids(ns).contains(b)
            && exists|i: int| 0 <= i < es.len() && (#[trigger] es[i]).from@ == b && es[i].to@ == a),
        !node_ids(ns).contains(a) ==> dependencies_of(es, ns, a) == Set::<Seq<char>>::empty()
            && dependents_of(es, ns, a) == Set::<Seq<char>>::empty(),
{
    if dependencies_of(es, ns, a).contains(b) {
        let i = choose|i: int| 0 <= i < es.len() && #[trigger] es[i].to@ == a && es[i].from@ == b && between_ids(es[i], ns);
        assert(es[i].from@ == b);
    }
    if dependents_of(es, ns, b).contains(a) {
        let i = choose|i: int| 0 <= i < es.len() && #[trigger] es[i].from@ == b && es[i].to@ == a && between_ids(es[i], ns);
        assert(es[i].to@ == a);
    }
    if node_ids(ns).contains(a) && node_ids(ns).contains(b)
        && exists|i: int| 0 <= i < es.len() && (#[trigger] es[i]).from@ == b && es[i].to@ == a {
        let i = choose|i: int| 0 <= i < es.len() && (#[trigger] es[i]).from@ == b && es[i].to@ == a;
        assert(between_ids(es[i], ns));
        assert(dependents_of(es, ns, b).contains(a));
    }
    if !node_ids(ns).contains(a) {
        assert(dependencies_of(es, ns, a) =~= Set::<Seq<char>>::empty());
        assert(dependents_of(es, ns, a) =~= Set::<Seq<char>>::empty());
    }
}

/// A node id has no dependencies exactly when no node is a dependency of it.
pub proof fn law_no_dependencies_means_none_listed(es: Seq<Edge>, ns: Seq<Node>, k: Seq<char>)
    requires
        node_ids(ns).contains(k),
    ensures
        ids_without_dependencies(es, ns).contains(k) <==> dependencies_of(es, ns, k) == Set::<Seq<char>>::empty(),
{
    if ids_without_dependencies(es, ns).contains(k) {
        assert(dependencies_of(es, ns, k) =~= Set::<Seq<char>>::empty());
    }
    if dependencies_of(es, ns, k) == Set::<Seq<char>>::empty() {
        if exists|i: int| 0 <= i < es.len() && #[trigger] es[i].to@ == k && between_ids(es[i], ns) {
            let i = choose|i: int| 0 <= i < es.len() && #[trigger] es[i].to@ == k && between_ids(es[i], ns);
            assert(dependencies_of(es, ns, k).contains(es[i].from@));
        }
    }
}


/// When a job run finds the dependencies of node `k` satisfied, every
/// dependency of `k` in the dependency graph has finished: it succeeded,
/// failed or was skipped.
pub proof fn law_satisfied_dependencies_are_finished(
    es: Seq<Edge>,
    ns: Seq<Node>,
    k: Seq<char>,
    st: Map<Seq<char>, NodeStatus>,
    nd: Map<Seq<char>, Map<Seq<char>, JsonView>>,
    d: Seq<char>,
)
    requires
        deps_satisfied(es, k, st, nd),
        dependencies_of(es, ns, k).contains(d),
    ensures
        st.dom().contains(d),
        st[d] == NodeStatus::Success || st[d] == NodeStatus::Failure || st[d] == NodeStatus::Skipped,
{
    let i = choose|i: int| 0 <= i < es.len() && #[trigger] es[i].to@ == k && es[i].from@ == d && between_ids(es[i], ns);
    assert(es[i].to@ == k);
}

/// Appends `s` to `v` unless `v` holds it already.
fn push_new(v: &mut Vec<String>, s: &String)
    requires
        distinct_texts(old(v)@),
    ensures
        distinct_texts(final(v)@),
        text_set(final(v)@) == text_set(old(v)@).insert(s@),
{
    let mut i: usize = 0;
    let mut found = false;
    while i < v.len()
        invariant
            i <= v@.len(),
            found <==> exists|j: int| 0 <= j < i && #[trigger] v@[j]@ == s@,
        decreases v@.len() - i,
    {
        if str_eq(v[i].as_str(), s.as_str()) {
            found = true;
        }
        i = i + 1;
    }
    let ghost before = v@;
    if !found {
        v.push(s.clone());
        assert(v@[before.len() as int]@ == s@);
        assert forall|k: Seq<char>| text_set(v@).contains(k) <==> text_set(before).insert(s@).contains(k) by {
            if text_set(v@).contains(k) {
                let j = choose|j: int| 0 <= j < v@.len() && #[trigger] v@[j]@ == k;
                if j < before.len() {
                    assert(before[j]@ == k);
                }
            }
            if text_set(before).contains(k) {
                let j = choose|j: int| 0 <= j < before.len() && #[trigger] before[j]@ == k;
                assert(v@[j]@ == k);
            }
        }
        assert(text_set(v@) =~= text_set(before).insert(s@));
    } else {
        assert(text_set(v@) =~= text_set(before).insert(s@));
    }
}

impl<'a> DependencyGraph<'a> {
    fn system_node_ids(&self, start: bool) -> (r: Vec<String>)
        ensures
            distinct_texts(r@),
            text_set(r@) == Set::new(|k: Seq<char>| action_ids(self.job.nodes@, if start { "start"@ } else { "end"@ }).contains(k)),
    {
        let ghost act: Seq<char> = if start { "start"@ } else { "end"@ };
        let ns = &self.job.nodes;
        let mut r: Vec<String> = Vec::new();
        let mut i: usize = 0;
        while i < ns.len()
            invariant
                i <= ns@.len(),
                ns@ == self.job.nodes@,
                act == (if start { "start"@ } else { "end"@ }),
                distinct_texts(r@),
                text_set(r@) == Set::new(|k: Seq<char>| action_ids(ns@.take(i as int), act).contains(k)),
            decreases ns@.len() - i,
        {
            let ghost pre = ns@.take(i as int);
            let ghost post = ns@.take(i + 1);
            assert(post.drop_last() =~= pre);
            assert(post.last() == ns@[i as int]);
            let n = &ns[i];
            let wanted = if start {
                is_start_node(n.plugin.as_str(), n.action.as_str())
            } else {
                is_end_node(n.plugin.as_str(), n.action.as_str())
            };
            if wanted {
                push_new(&mut r, &n.id);
                assert forall|k: Seq<char>| action_ids(post, act).contains(k) <==> (action_ids(pre, act).contains(k) || k == n.id@) by {
                    lemma_seq_push_contains(action_ids(pre, act), n.id@, k);
                }
                assert(text_set(r@) =~= Set::new(|k: Seq<char>| action_ids(post, act).contains(k)));
            } else {
                assert(text_set(r@) =~= Set::new(|k: Seq<char>| action_ids(post, act).contains(k)));
            }
            i = i + 1;
        }
        assert(ns@.take(ns@.len() as int) =~= ns@);
        r
    }

    /// The ids of the start nodes of the job, each once.
    pub fn get_start_nodes(&self) -> (r: Vec<String>)
        ensures
            distinct_texts(r@),
            text_set(r@) == Set::new(|k: Seq<char>| action_ids(self.job.nodes@, "start"@).contains(k)),
    {
        self.system_node_ids(true)
    }

    /// The ids of the end nodes of the job, each once.
    pub fn get_end_nodes(&self) -> (r: Vec<String>)
        ensures
            distinct_texts(r@),
            text_set(r@) == Set::new(|k: Seq<char>| action_ids(self.job.nodes@, "end"@).contains(k)),
    {
        self.system_node_ids(false)
    }
}


impl<'a> DependencyGraph<'a> {
    /// The ids of the nodes with no edge into them from a node of the job,
    /// each once.
    #[verifier::spinoff_prover]
    pub fn get_nodes_with_no_dependencies(&self) -> (r: Vec<String>)
        requires
            self.wf(),
        ensures
            distinct_texts(r@),
            text_set(r@) == ids_without_dependencies(self.job.edges@, self.job.nodes@),
    {
        let ghost ns = self.job.nodes@;
        let ghost es = self.job.edges@;
        let entries = &self.node_indices.entries;
        let mut r: Vec<String> = Vec::new();
        let mut m: usize = 0;
        while m < entries.len()
            invariant
                self.wf(),
                ns == self.job.nodes@,
                es == self.job.edges@,
                entries == &self.node_indices.entries,
                m <= entries@.len(),
                distinct_texts(r@),
                text_set(r@) == Set::new(|k: Seq<char>| (exists|p: int| 0 <= p < m && #[trigger] entries@[p].0@ == k)
                    && ids_without_dependencies(es, ns).contains(k)),
            decreases entries@.len() - m,
        {
            let ghost k = entries@[m as int].0@;
            let idx = entries[m].1;
            proof {
                lemma_entries_map_at(entries@, m as int);
                lemma_last_node_with(ns, k);
            }
            let srcs = graph_sources_into(&self.graph, idx);
            let ghost before = text_set(r@);
            proof {
                if srcs.len() == 0 {
                    if exists|i: int| 0 <= i < es.len() && #[trigger] es[i].to@ == k && between_ids(es[i], ns) {
                        let i = choose|i: int| 0 <= i < es.len() && #[trigger] es[i].to@ == k && between_ids(es[i], ns);
                        lemma_sources_into_dep(es, ns, k, node_index(ns, es[i].from@));
                        let sq = sources_into(dep_edges(es, ns), node_index(ns, k));
                        assert(sq.contains(node_index(ns, es[i].from@)));
                    }
                } else {
                    let sq = sources_into(dep_edges(es, ns), node_index(ns, k));
                    assert(sq.contains(sq[0]));
                    lemma_sources_into_dep(es, ns, k, sq[0]);
                }
            }
            if srcs.len() == 0 {
                push_new(&mut r, &entries[m].0);
            }
            assert(text_set(r@) =~= Set::new(|k2: Seq<char>| (exists|p: int| 0 <= p < m + 1 && #[trigger] entries@[p].0@ == k2)
                && ids_without_dependencies(es, ns).contains(k2))) by {
                assert forall|k2: Seq<char>| #[trigger] text_set(r@).contains(k2) <==> ((exists|p: int| 0 <= p < m + 1 && #[trigger] entries@[p].0@ == k2)
                    && ids_without_dependencies(es, ns).contains(k2)) by {
                    if exists|p: int| 0 <= p < m + 1 && #[trigger] entries@[p].0@ == k2 {
                        let p = choose|p: int| 0 <= p < m + 1 && #[trigger] entries@[p].0@ == k2;
                        if p < m {
                            assert(entries@[p].0@ == k2);
                        }
                    }
                    if k2 == k {
                        assert(entries@[m as int].0@ == k2);
                    }
                }
            }
            m = m + 1;
        }
        proof {
            assert forall|k: Seq<char>| node_ids(ns).contains(k) implies exists|p: int| 0 <= p < entries@.len() && #[trigger] entries@[p].0@ == k by {
                lemma_entries_map_dom(entries@, k);
            }
            assert(text_set(r@) =~= ids_without_dependencies(es, ns));
        }
        r
    }

    /// The ids of the sources of the edges into node `node_id`, each once;
    /// none when `node_id` is not a node of the job.
    #[verifier::spinoff_prover]
    pub fn get_dependencies(&self, node_id: &str) -> (r: Vec<String>)
        requires
            self.wf(),
        ensures
            distinct_texts(r@),
            text_set(r@) == dependencies_of(self.job.edges@, self.job.nodes@, node_id@),
    {
        let ghost ns = self.job.nodes@;
        let ghost es = self.job.edges@;
        let mut r: Vec<String> = Vec::new();
        match self.node_indices.get(node_id) {
            Some(idx) => {
                proof {
                    lemma_last_node_with(ns, node_id@);
                }
                let srcs = graph_sources_into(&self.graph, *idx);
                let ghost sq = sources_into(dep_edges(es, ns), node_index(ns, node_id@));
                let mut p: usize = 0;
                while p < srcs.len()
                    invariant
                        self.wf(),
                        ns == self.job.nodes@,
                        es == self.job.edges@,
                        node_ids(ns).contains(node_id@),
                        sq == sources_into(dep_edges(es, ns), node_index(ns, node_id@)),
                        srcs@.len() == sq.len(),
                        forall|q: int| 0 <= q < srcs@.len() ==> srcs@[q] as nat == sq[q],
                        p <= srcs@.len(),
                        distinct_texts(r@),
                        text_set(r@) == Set::new(|k: Seq<char>| exists|q: int| 0 <= q < p && ns[#[trigger] srcs@[q] as int].id@ == k),
                    decreases srcs@.len() - p,
                {
                    let s = srcs[p];
                    proof {
                        assert(sq.contains(sq[p as int]));
                        lemma_sources_into_dep(es, ns, node_id@, s as nat);
                        let i = choose|i: int| 0 <= i < es.len() && #[trigger] es[i].to@ == node_id@ && between_ids(es[i], ns)
                            && node_index(ns, es[i].from@) == s as nat;
                        lemma_last_node_with(ns, es[i].from@);
                    }
                    push_new(&mut r, &self.job.nodes[s].id);
                    assert(text_set(r@) =~= Set::new(|k: Seq<char>| exists|q: int| 0 <= q < p + 1 && ns[#[trigger] srcs@[q] as int].id@ == k)) by {
                        assert forall|k: Seq<char>| #[trigger] text_set(r@).contains(k)
                            <==> (exists|q: int| 0 <= q < p + 1 && ns[#[trigger] srcs@[q] as int].id@ == k) by {
                            if exists|q: int| 0 <= q < p + 1 && ns[#[trigger] srcs@[q] as int].id@ == k {
                                let q = choose|q: int| 0 <= q < p + 1 && ns[#[trigger] srcs@[q] as int].id@ == k;
                                if q < p {
                                    assert(ns[srcs@[q] as int].id@ == k);
                                }
                            }
                            if k == ns[s as int].id@ {
                                assert(ns[srcs@[p as int] as int].id@ == k);
                            }
                        }
                    }
                    p = p + 1;
                }
                proof {
                    assert forall|k: Seq<char>| text_set(r@).contains(k) <==> dependencies_of(es, ns, node_id@).contains(k) by {
                        if text_set(r@).contains(k) {
                            let q = choose|q: int| 0 <= q < srcs@.len() && ns[#[trigger] srcs@[q] as int].id@ == k;
                            let a = srcs@[q] as nat;
                            assert(sq.contains(sq[q]));
                            lemma_sources_into_dep(es, ns, node_id@, a);
                            let i = choose|i: int| 0 <= i < es.len() && #[trigger] es[i].to@ == node_id@ && between_ids(es[i], ns)
                                && node_index(ns, es[i].from@) == a;
                            lemma_last_node_with(ns, es[i].from@);
                            assert(es[i].from@ == k);
                        }
                        if dependencies_of(es, ns, node_id@).contains(k) {
                            let i = choose|i: int| 0 <= i < es.len() && #[trigger] es[i].to@ == node_id@ && es[i].from@ == k
                                && between_ids(es[i], ns);
                            let a = node_index(ns, k);
                            lemma_sources_into_dep(es, ns, node_id@, a);
                            let q = choose|q: int| 0 <= q < sq.len() && sq[q] == a;
                            lemma_last_node_with(ns, k);
                            assert(ns[srcs@[q] as int].id@ == k);
                        }
                    }
                    assert(text_set(r@) =~= dependencies_of(es, ns, node_id@));
                }
            },
            None => {
                assert(text_set(r@) =~= dependencies_of(es, ns, node_id@));
            },
        }
        r
    }

    /// The ids of the targets of the edges out of node `node_id`, each once;
    /// none when `node_id` is not a node of the job.
    #[verifier::spinoff_prover]
    pub fn get_dependents(&self, node_id: &str) -> (r: Vec<String>)
        requires
            self.wf(),
        ensures
            distinct_texts(r@),
            text_set(r@) == dependents_of(self.job.edges@, self.job.nodes@, node_id@),
    {
        let ghost ns = self.job.nodes@;
        let ghost es = self.job.edges@;
        let mut r: Vec<String> = Vec::new();
        match self.node_indices.get(node_id) {
            Some(idx) => {
                proof {
                    lemma_last_node_with(ns, node_id@);
                }
                let srcs = graph_targets_from(&self.graph, *idx);
                let ghost sq = targets_from(dep_edges(es, ns), node_index(ns, node_id@));
                let mut p: usize = 0;
                while p < srcs.len()
                    invariant
                        self.wf(),
                        ns == self.job.nodes@,
                        es == self.job.edges@,
                        node_ids(ns).contains(node_id@),
                        sq == targets_from(dep_edges(es, ns), node_index(ns, node_id@)),
                        srcs@.len() == sq.len(),
                        forall|q: int| 0 <= q < srcs@.len() ==> srcs@[q] as nat == sq[q],
                        p <= srcs@.len(),
                        distinct_texts(r@),
                        text_set(r@) == Set::new(|k: Seq<char>| exists|q: int| 0 <= q < p && ns[#[trigger] srcs@[q] as int].id@ == k),
                    decreases srcs@.len() - p,
                {
                    let s = srcs[p];
                    proof {
                        assert(sq.contains(sq[p as int]));
                        lemma_targets_from_dep(es, ns, node_id@, s as nat);
                        let i = choose|i: int| 0 <= i < es.len() && #[trigger] es[i].from@ == node_id@ && between_ids(es[i], ns)
                            && node_index(ns, es[i].to@) == s as nat;
                        lemma_last_node_with(ns, es[i].to@);
                    }
                    push_new(&mut r, &self.job.nodes[s].id);
                    assert(text_set(r@) =~= Set::new(|k: Seq<char>| exists|q: int| 0 <= q < p + 1 && ns[#[trigger] srcs@[q] as int].id@ == k)) by {
                        assert forall|k: Seq<char>| #[trigger] text_set(r@).contains(k)
                            <==> (exists|q: int| 0 <= q < p + 1 && ns[#[trigger] srcs@[q] as int].id@ == k) by {
                            if exists|q: int| 0 <= q < p + 1 && ns[#[trigger] srcs@[q] as int].id@ == k {
                                let q = choose|q: int| 0 <= q < p + 1 && ns[#[trigger] srcs@[q] as int].id@ == k;
                                if q < p {
                                    assert(ns[srcs@[q] as int].id@ == k);
                                }
                            }
                            if k == ns[s as int].id@ {
                                assert(ns[srcs@[p as int] as int].id@ == k);
                            }
                        }
                    }
                    p = p + 1;
                }
                proof {
                    assert forall|k: Seq<char>| text_set(r@).contains(k) <==> dependents_of(es, ns, node_id@).contains(k) by {
                        if text_set(r@).contains(k) {
                            let q = choose|q: int| 0 <= q < srcs@.len() && ns[#[trigger] srcs@[q] as int].id@ == k;
                            let a = srcs@[q] as nat;
                            assert(sq.contains(sq[q]));
                            lemma_targets_from_dep(es, ns, node_id@, a);
                            let i = choose|i: int| 0 <= i < es.len() && #[trigger] es[i].from@ == node_id@ && between_ids(es[i], ns)
                                && node_index(ns, es[i].to@) == a;
                            lemma_last_node_with(ns, es[i].to@);
                            assert(es[i].to@ == k);
                        }
                        if dependents_of(es, ns, node_id@).contains(k) {
                            let i = choose|i: int| 0 <= i < es.len() && #[trigger] es[i].from@ == node_id@ && es[i].to@ == k
                                && between_ids(es[i], ns);
                            let a = node_index(ns, k);
                            lemma_targets_from_dep(es, ns, node_id@, a);
                            let q = choose|q: int| 0 <= q < sq.len() && sq[q] == a;
                            lemma_last_node_with(ns, k);
                            assert(ns[srcs@[q] as int].id@ == k);
                        }
                    }
                    assert(text_set(r@) =~= dependents_of(es, ns, node_id@));
                }
            },
            None => {
                assert(text_set(r@) =~= dependents_of(es, ns, node_id@));
            },
        }
        r
    }
}

} // verus!
