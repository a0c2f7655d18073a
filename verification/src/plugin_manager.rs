//! Plugins declared in the configuration: their manifests (`plugin.json`),
//! data types and node specifications, by namespace.

use vstd::prelude::*;
use crate::specs::{DataType, NodeSpec};
use crate::strmap::StrMap;
use crate::text::{str_eq, concat};

verus! {

/// Why a plugin could not be loaded.
#[derive(Debug)]
pub enum PluginError {
    /// A file of the plugin could not be read.
    ReadManifest { path: String, reason: String },
    /// A file of the plugin could not be parsed.
    ParseManifest { path: String, reason: String },
    /// The manifest does not fit the configuration.
    Validation(String),
}

/// How a plugin's nodes are run when it names no executor.
#[derive(Debug)]
pub struct RuntimeSpec {
    /// `python` or `bash`.
    pub language: String,
    /// For Python: `uv` or `poetry`.
    pub manager: String,
}

/// A plugin manifest (`plugin.json`).
#[derive(Debug)]
pub struct PluginManifest {
    /// Unique namespace.
    pub plugin_fqdn: String,
    pub version: String,
    pub author: Option<String>,
    pub created: Option<String>,
    pub metadata: Option<PluginMetadata>,
    /// Paths of type definitions, relative to the plugin root.
    pub types: Vec<String>,
    /// Paths of node specifications, relative to the plugin root.
    pub nodes: Vec<String>,
    /// The command that runs the plugin's nodes, if given.
    pub executor: Option<Vec<String>>,
    /// The runtime, when no executor is given.
    pub runtime: Option<RuntimeSpec>,
}

/// Descriptive data of a plugin.
#[derive(Debug)]
pub struct PluginMetadata {
    pub description: Option<String>,
    pub license: Option<String>,
    pub homepage: Option<String>,
}

/// A loaded plugin.
#[derive(Debug)]
pub struct Plugin {
    pub manifest: PluginManifest,
    /// Data types by type FQDN.
    pub types: StrMap<DataType>,
    /// Node specifications by node FQDN.
    pub nodes: StrMap<NodeSpec>,
    /// Paths of the type definition files.
    pub type_paths: Vec<String>,
    /// Paths of the node specification files.
    pub node_paths: Vec<String>,
    /// Root directory of the plugin.
    pub root: String,
}

/// The loaded plugins, by namespace.
#[derive(Debug)]
pub struct PluginManager {
    pub plugins: StrMap<Plugin>,
}

/// Data types keyed by type FQDN (a later one with the same FQDN wins).
pub open spec fn type_table(ts: Seq<DataType>) -> Map<Seq<char>, DataType>
    decreases ts.len(),
{
    if ts.len() == 0 {
        Map::empty()
    } else {
        type_table(ts.drop_last()).insert(ts.last().type_fqdn@, ts.last())
    }
}

/// Node specifications keyed by node FQDN (a later one with the same FQDN wins).
pub open spec fn node_table(ns: Seq<NodeSpec>) -> Map<Seq<char>, NodeSpec>
    decreases ns.len(),
{
    if ns.len() == 0 {
        Map::empty()
    } else {
        node_table(ns.drop_last()).insert(ns.last().node_fqdn@, ns.last())
    }
}

/// The error for a manifest whose FQDN is not the namespace it is configured under.
pub open spec fn fqdn_mismatch_text(fqdn: Seq<char>, namespace: Seq<char>) -> Seq<char> {
    "PLugin FQDN '"@ + fqdn + "' does not match the config key '"@ + namespace + "'"@
}

/// Checks that a manifest's FQDN is the namespace it is configured under.
pub fn check_manifest(namespace: &str, manifest: &PluginManifest) -> (r: Result<(), PluginError>)
    ensures
        manifest.plugin_fqdn@ == namespace@ <==> r is Ok,
        r matches Err(e) ==> e matches PluginError::Validation(m) && m@ == fqdn_mismatch_text(manifest.plugin_fqdn@, namespace@),
{
    if str_eq(manifest.plugin_fqdn.as_str(), namespace) {
        Ok(())
    } else {
        let a = concat("PLugin FQDN '", manifest.plugin_fqdn.as_str());
        let b = concat(a.as_str(), "' does not match the config key '");
        let c = concat(b.as_str(), namespace);
        Err(PluginError::Validation(concat(c.as_str(), "'")))
    }
}

impl PluginManager {
    /// Consistent tables: distinct namespaces, and within each plugin
    /// distinct type and node FQDNs.
    pub open spec fn wf(&self) -> bool {
        &&& self.plugins.wf()
        &&& forall|k: Seq<char>| #[trigger] self.plugins@.dom().contains(k)
            ==> self.plugins@[k].types.wf() && self.plugins@[k].nodes.wf()
    }

    /// No plugins.
    pub fn new() -> (r: PluginManager)
        ensures
            r.wf(),
            r.plugins@ == Map::<Seq<char>, Plugin>::empty(),
    {
        PluginManager { plugins: StrMap::new() }
    }

    /// Adds the plugin configured under `namespace`, from its manifest, its
    /// root directory and the files it lists (paths and parsed contents). The
    /// manifest's FQDN must be the namespace; a plugin already under the
    /// namespace is replaced.
    pub fn add_plugin(
        &mut self,
        namespace: &str,
        manifest: PluginManifest,
        root: String,
        type_paths: Vec<String>,
        node_paths: Vec<String>,
        types: Vec<DataType>,
        nodes: Vec<NodeSpec>,
    ) -> (r: Result<(), PluginError>)
        requires
            old(self).wf(),
        ensures
            final(self).wf(),
            manifest.plugin_fqdn@ == namespace@ <==> r is Ok,
            r matches Err(e) ==> e matches PluginError::Validation(m) && m@ == fqdn_mismatch_text(manifest.plugin_fqdn@, namespace@),
            r is Err ==> final(self).plugins@ == old(self).plugins@,
            r is Ok ==> ({
                let p = final(self).plugins@[namespace@];
                &&& final(self).plugins@ == old(self).plugins@.insert(namespace@, p)
                &&& p.manifest == manifest
                &&& p.root == root
                &&& p.type_paths == type_paths
                &&& p.node_paths == node_paths
                &&& p.types.wf() && p.types@ == type_table(types@)
                &&& p.nodes.wf() && p.nodes@ == node_table(nodes@)
            }),
    {
        let checked = check_manifest(namespace, &manifest);
        if checked.is_err() {
            return checked;
        }
        let mut type_map: StrMap<DataType> = StrMap::new();
        let mut rest = types;
        let ghost all_types = rest@;
        let ghost mut k: int = 0;
        while rest.len() > 0
            invariant
                type_map.wf(),
                0 <= k <= all_types.len(),
                rest@ =~= all_types.skip(k),
                type_map@ == type_table(all_types.take(k)),
            decreases rest@.len(),
        {
            let t = rest.remove(0);
            let key = t.type_fqdn.clone();
            type_map.insert(key, t);
            proof {
                assert(all_types.take(k + 1).drop_last() =~= all_types.take(k));
                k = k + 1;
            }
            assert(rest@ =~= all_types.skip(k));
        }
        assert(all_types.take(k) =~= all_types);
        let mut node_map: StrMap<NodeSpec> = StrMap::new();
        let mut rest_nodes = nodes;
        let ghost all_nodes = rest_nodes@;
        let ghost mut j: int = 0;
        while rest_nodes.len() > 0
            invariant
                node_map.wf(),
                0 <= j <= all_nodes.len(),
                rest_nodes@ =~= all_nodes.skip(j),
                node_map@ == node_table(all_nodes.take(j)),
            decreases rest_nodes@.len(),
        {
            let n = rest_nodes.remove(0);
            let key = n.node_fqdn.clone();
            node_map.insert(key, n);
            proof {
                assert(all_nodes.take(j + 1).drop_last() =~= all_nodes.take(j));
                j = j + 1;
            }
            assert(rest_nodes@ =~= all_nodes.skip(j));
        }
        assert(all_nodes.take(j) =~= all_nodes);
        let plugin = Plugin { manifest, types: type_map, nodes: node_map, type_paths, node_paths, root };
        self.plugins.insert(String::from_str(namespace), plugin);
        Ok(())
    }

    /// The plugin under `namespace`.
    pub fn get(&self, namespace: &str) -> (r: Option<&Plugin>)
        requires
            self.plugins.wf(),
        ensures
            match r {
                Some(p) => self.plugins@.dom().contains(namespace@) && self.plugins@[namespace@] == *p,
                None => !self.plugins@.dom().contains(namespace@),
            },
    {
        self.plugins.get(namespace)
    }

    /// The namespaces of the loaded plugins, each once.
    pub fn list_namespaces(&self) -> (r: Vec<String>)
        requires
            self.plugins.wf(),
        ensures
            r@.len() == self.plugins@.dom().len(),
            forall|i: int, j: int| 0 <= i < r@.len() && 0 <= j < r@.len() && i != j ==> #[trigger] r@[i]@ != #[trigger] r@[j]@,
            forall|k: Seq<char>| self.plugins@.dom().contains(k) <==> exists|i: int| 0 <= i < r@.len() && #[trigger] r@[i]@ == k,
    {
        self.plugins.keys()
    }
}

/// A plugin's type table holds, under each FQDN, the last data type of its
/// list with that FQDN, and holds exactly the FQDNs of the list.
pub proof fn law_type_table(ts: Seq<DataType>, k: Seq<char>)
    ensures
        type_table(ts).dom().contains(k) <==> exists|i: int| 0 <= i < ts.len() && (#[trigger] ts[i]).type_fqdn@ == k,
        type_table(ts).dom().contains(k) ==> exists|i: int| 0 <= i < ts.len() && (#[trigger] ts[i]).type_fqdn@ == k
            && type_table(ts)[k] == ts[i] && forall|j: int| i < j < ts.len() ==> (#[trigger] ts[j]).type_fqdn@ != k,
    decreases ts.len(),
{
    if ts.len() > 0 {
        let pre = ts.drop_last();
        law_type_table(pre, k);
        if ts.last().type_fqdn@ == k {
            let i = ts.len() - 1;
            assert(ts[i].type_fqdn@ == k && type_table(ts)[k] == ts[i]);
        } else {
            if type_table(ts).dom().contains(k) {
                let i = choose|i: int| 0 <= i < pre.len() && (#[trigger] pre[i]).type_fqdn@ == k
                    && type_table(pre)[k] == pre[i] && forall|j: int| i < j < pre.len() ==> (#[trigger] pre[j]).type_fqdn@ != k;
                assert(ts[i] == pre[i]);
                assert forall|j: int| i < j < ts.len() implies (#[trigger] ts[j]).type_fqdn@ != k by {
                    if j < pre.len() {
                        assert(ts[j] == pre[j]);
                    }
                }
            }
            if exists|i: int| 0 <= i < ts.len() && (#[trigger] ts[i]).type_fqdn@ == k {
                let i = choose|i: int| 0 <= i < ts.len() && (#[trigger] ts[i]).type_fqdn@ == k;
                assert(pre[i] == ts[i]);
            }
        }
    }
}

/// A plugin's node table holds, under each FQDN, the last node specification of its
/// list with that FQDN, and holds exactly the FQDNs of the list.
pub proof fn law_node_table(ts: Seq<NodeSpec>, k: Seq<char>)
    ensures
        node_table(ts).dom().contains(k) <==> exists|i: int| 0 <= i < ts.len() && (#[trigger] ts[i]).node_fqdn@ == k,
        node_table(ts).dom().contains(k) ==> exists|i: int| 0 <= i < ts.len() && (#[trigger] ts[i]).node_fqdn@ == k
            && node_table(ts)[k] == ts[i] && forall|j: int| i < j < ts.len() ==> (#[trigger] ts[j]).node_fqdn@ != k,
    decreases ts.len(),
{
    if ts.len() > 0 {
        let pre = ts.drop_last();
        law_node_table(pre, k);
        if ts.last().node_fqdn@ == k {
            let i = ts.len() - 1;
            assert(ts[i].node_fqdn@ == k && node_table(ts)[k] == ts[i]);
        } else {
            if node_table(ts).dom().contains(k) {
                let i = choose|i: int| 0 <= i < pre.len() && (#[trigger] pre[i]).node_fqdn@ == k
                    && node_table(pre)[k] == pre[i] && forall|j: int| i < j < pre.len() ==> (#[trigger] pre[j]).node_fqdn@ != k;
                assert(ts[i] == pre[i]);
                assert forall|j: int| i < j < ts.len() implies (#[trigger] ts[j]).node_fqdn@ != k by {
                    if j < pre.len() {
                        assert(ts[j] == pre[j]);
                    }
                }
            }
            if exists|i: int| 0 <= i < ts.len() && (#[trigger] ts[i]).node_fqdn@ == k {
                let i = choose|i: int| 0 <= i < ts.len() && (#[trigger] ts[i]).node_fqdn@ == k;
                assert(pre[i] == ts[i]);
            }
        }
    }
}

} // verus!
