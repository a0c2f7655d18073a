//! Where a node of a job is executed: by the system plugin, or by a
//! registered plugin of the node's plugin name, preferring the node's
//! version.

use vstd::prelude::*;
use crate::models::Node;
use crate::plugin::{Plugin, PluginRegistry, plugins_of};
use crate::system_plugin::{is_system_node, system_node};
use crate::text::{str_eq, concat};

verus! {

/// Where a node is executed.
#[derive(Debug)]
pub enum NodeRoute<'a> {
    /// By the system plugin's action of the node's name.
    System,
    /// By this plugin.
    Plugin(&'a Plugin),
}

/// The plugins a registry holds under the name `name`, in registration order.
pub open spec fn plugins_named(registry: PluginRegistry, name: Seq<char>) -> Seq<Plugin> {
    plugins_of(registry.ids_named(name), registry.by_id())
}

/// Position `i` is the plugin chosen among `ps` for version `v`: the first
/// with that version, or the first of all when none has it.
pub open spec fn chosen_at(ps: Seq<Plugin>, v: Seq<char>, i: int) -> bool {
    &&& 0 <= i < ps.len()
    &&& if exists|j: int| 0 <= j < ps.len() && (#[trigger] ps[j]).version@ == v {
        ps[i].version@ == v && forall|j: int| 0 <= j < i ==> (#[trigger] ps[j]).version@ != v
    } else {
        i == 0
    }
}

/// Decides where node `node` is executed: system nodes by the system
/// plugin; else a plugin of the node's plugin name, the first with the
/// node's version or else the first; an error when there is none.
#[verifier::loop_isolation(false)]
pub fn route_node<'a>(registry: &'a PluginRegistry, node: &Node) -> (r: Result<NodeRoute<'a>, String>)
    requires
        registry.wf(),
    ensures
        system_node(node.plugin@, node.action@) ==> r matches Ok(NodeRoute::System),
        !system_node(node.plugin@, node.action@) ==> {
            let ps = plugins_named(*registry, node.plugin@);
            match r {
                Ok(NodeRoute::Plugin(p)) => exists|i: int| chosen_at(ps, node.version@, i) && *p == #[trigger] ps[i],
                Ok(NodeRoute::System) => false,
                Err(e) => ps.len() == 0 && e@ == "Plugin not found: "@ + node.plugin@,
            }
        },
{
    if is_system_node(node.plugin.as_str(), node.action.as_str()) {
        return Ok(NodeRoute::System);
    }
    let ps = registry.find_plugins(node.plugin.as_str());
    let ghost pv = ps@.map_values(|p: &Plugin| *p);
    if ps.len() == 0 {
        return Err(concat("Plugin not found: ", node.plugin.as_str()));
    }
    let mut i: usize = 0;
    while i < ps.len()
        invariant
            pv == ps@.map_values(|p: &Plugin| *p),
            i <= ps@.len(),
            forall|j: int| 0 <= j < i ==> (#[trigger] pv[j]).version@ != node.version@,
        decreases ps@.len() - i,
    {
        if str_eq(ps[i].version.as_str(), node.version.as_str()) {
            assert(pv[i as int] == *ps@[i as int]);
            assert(chosen_at(pv, node.version@, i as int));
            assert(plugins_named(*registry, node.plugin@)[i as int] == *ps@[i as int]);
            return Ok(NodeRoute::Plugin(ps[i]));
        }
        i = i + 1;
    }
    assert(chosen_at(pv, node.version@, 0));
    assert(plugins_named(*registry, node.plugin@)[0] == *ps@[0]);
    Ok(NodeRoute::Plugin(ps[0]))
}

} // verus!
