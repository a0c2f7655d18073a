//! The built-in system plugin: workflow start and end nodes, primitive
//! values and logging, all run in-process.

use vstd::prelude::*;
use crate::json::{JsonMap, JsonNumber, JsonValue, JsonView};
use crate::plugin::{Plugin, PluginRegistry, ActionDefinition, actions_by_name, action_table};
use crate::strmap::StrMap;
use crate::text::{str_eq, concat};

pub mod start;
pub mod end;
pub mod string;
pub mod number;
pub mod boolean;
pub mod object;
pub mod null;
pub mod log;

verus! {

/// The input `k`, or `d` when it is missing.
pub open spec fn input_or(m: Map<Seq<char>, JsonValue>, k: Seq<char>, d: JsonView) -> JsonView {
    if m.dom().contains(k) {
        m[k]@
    } else {
        d
    }
}

/// The names of the system plugin's actions.
pub open spec fn system_actions() -> Set<Seq<char>> {
    set!["start"@, "end"@, "string"@, "number"@, "boolean"@, "object"@, "null"@, "log"@]
}

/// The names of the system plugin's actions are pairwise distinct.
proof fn lemma_action_names_distinct()
    ensures
        "start"@ != "end"@ && "start"@ != "string"@ && "start"@ != "number"@ && "start"@ != "boolean"@
            && "start"@ != "object"@ && "start"@ != "null"@ && "start"@ != "log"@,
        "end"@ != "string"@ && "end"@ != "number"@ && "end"@ != "boolean"@ && "end"@ != "object"@
            && "end"@ != "null"@ && "end"@ != "log"@,
        "string"@ != "number"@ && "string"@ != "boolean"@ && "string"@ != "object"@ && "string"@ != "null"@
            && "string"@ != "log"@,
        "number"@ != "boolean"@ && "number"@ != "object"@ && "number"@ != "null"@ && "number"@ != "log"@,
        "boolean"@ != "object"@ && "boolean"@ != "null"@ && "boolean"@ != "log"@,
        "object"@ != "null"@ && "object"@ != "log"@,
        "null"@ != "log"@,
{
    reveal_strlit("start");
    reveal_strlit("end");
    reveal_strlit("string");
    reveal_strlit("number");
    reveal_strlit("boolean");
    reveal_strlit("object");
    reveal_strlit("null");
    reveal_strlit("log");
    assert("start"@.len() == 5);
    assert("end"@.len() == 3);
    assert("string"@.len() == 6);
    assert("number"@.len() == 6);
    assert("boolean"@.len() == 7);
    assert("object"@.len() == 6);
    assert("null"@.len() == 4);
    assert("log"@.len() == 3);
    assert("end"@[0] != "log"@[0]);
    assert("string"@[0] != "number"@[0]);
    assert("string"@[0] != "object"@[0]);
    assert("number"@[0] != "object"@[0]);
}

/// The actions of the system plugin, each as its module defines it.
pub open spec fn system_action_table(t: Map<Seq<char>, ActionDefinition>) -> bool {
    &&& t.dom() =~= system_actions()
    &&& start::is_definition(t["start"@])
    &&& end::is_definition(t["end"@])
    &&& string::is_definition(t["string"@])
    &&& number::is_definition(t["number"@])
    &&& boolean::is_definition(t["boolean"@])
    &&& object::is_definition(t["object"@])
    &&& null::is_definition(t["null"@])
    &&& log::is_definition(t["log"@])
}

/// Registers the system plugin (`system:system`, version `1.0.0`, run
/// in-process) with all its actions.
pub fn register_system_plugin(registry: &mut PluginRegistry) -> (r: Result<(), String>)
    requires
        old(registry).wf(),
    ensures
        final(registry).wf(),
        final(registry).source_list() == old(registry).source_list(),
        old(registry).by_id().dom().contains("system:system"@) ==> {
            &&& r matches Err(m) && m@ == "Plugin with ID "@ + "system:system"@ + " already exists"@
            &&& final(registry).by_id() == old(registry).by_id()
            &&& final(registry).by_name() == old(registry).by_name()
        },
        !old(registry).by_id().dom().contains("system:system"@) ==> {
            &&& r is Ok
            &&& final(registry).by_id().dom() == old(registry).by_id().dom().insert("system:system"@)
            &&& final(registry).by_name() == old(registry).by_name().insert(
                "system"@,
                old(registry).ids_named("system"@).push("system:system"@),
            )
            &&& forall|k: Seq<char>| k != "system:system"@ && old(registry).by_id().dom().contains(k) ==> final(registry).by_id()[k] == old(registry).by_id()[k]
            &&& ({
                let p = final(registry).by_id()["system:system"@];
                &&& p.id@ == "system:system"@
                &&& p.name@ == "system"@
                &&& p.version@ == "1.0.0"@
                &&& p.runtime@ == "internal"@
                &&& p.path@ == "."@
                &&& p.actions.wf()
                &&& system_action_table(p.actions@)
            })
        },
{
    let mut defs: Vec<ActionDefinition> = Vec::new();
    defs.push(start::definition());
    defs.push(end::definition());
    defs.push(string::definition());
    defs.push(number::definition());
    defs.push(boolean::definition());
    defs.push(object::definition());
    defs.push(null::definition());
    defs.push(log::definition());
    let ghost d = defs@;
    let actions = actions_by_name(defs);
    proof {
        lemma_action_names_distinct();
        assert(d.len() == 8);
        let t0 = action_table(d.take(0));
        assert(d.take(0) =~= Seq::<ActionDefinition>::empty());
        assert(d.take(1).drop_last() =~= d.take(0));
        assert(d.take(2).drop_last() =~= d.take(1));
        assert(d.take(3).drop_last() =~= d.take(2));
        assert(d.take(4).drop_last() =~= d.take(3));
        assert(d.take(5).drop_last() =~= d.take(4));
        assert(d.take(6).drop_last() =~= d.take(5));
        assert(d.take(7).drop_last() =~= d.take(6));
        assert(d.drop_last() =~= d.take(7));
        assert(action_table(d.take(1)) == t0.insert(d[0].name@, d[0]));
        assert(action_table(d.take(2)) == action_table(d.take(1)).insert(d[1].name@, d[1]));
        assert(action_table(d.take(3)) == action_table(d.take(2)).insert(d[2].name@, d[2]));
        assert(action_table(d.take(4)) == action_table(d.take(3)).insert(d[3].name@, d[3]));
        assert(action_table(d.take(5)) == action_table(d.take(4)).insert(d[4].name@, d[4]));
        assert(action_table(d.take(6)) == action_table(d.take(5)).insert(d[5].name@, d[5]));
        assert(action_table(d.take(7)) == action_table(d.take(6)).insert(d[6].name@, d[6]));
        assert(action_table(d) == action_table(d.take(7)).insert(d[7].name@, d[7]));
        assert(system_action_table(actions@));
    }
    let plugin = Plugin {
        id: String::from_str("system:system"),
        name: String::from_str("system"),
        version: String::from_str("1.0.0"),
        runtime: String::from_str("internal"),
        path: String::from_str("."),
        actions,
    };
    registry.register_plugin(plugin)
}

/// Runs action `action` of the system plugin on `inputs`; an action that the
/// plugin does not have is an error. Reading a text as a float is left to `read_float`.
pub fn execute_system_action<F: Fn(&String) -> Option<JsonNumber>>(action: &str, inputs: JsonMap, read_float: &F) -> (r: Result<JsonMap, String>)
    requires
        inputs.wf(),
        forall|s: &String| read_float.requires((s,)),
    ensures
        action@ == "start"@ || action@ == "end"@ ==> r == Ok::<JsonMap, String>(inputs),
        action@ == "string"@ ==> (r matches Ok(m) && m.wf() && crate::json::single_output(m@, JsonView::Str(crate::json::text_form(input_or(inputs@, "value"@, JsonView::Str(""@)))))),
        action@ == "number"@ ==> (r matches Ok(m) && m.wf() && m@.dom() =~= Set::empty().insert("output"@) && number::number_result(
            if inputs@.dom().contains("value"@) { Some(inputs@["value"@]) } else { None },
            *read_float,
            m@["output"@]@,
        )),
        action@ == "boolean"@ ==> (r matches Ok(m) && m.wf() && crate::json::single_output(m@, JsonView::Bool(crate::json::truthy(input_or(inputs@, "value"@, JsonView::Bool(false)))))),
        action@ == "object"@ ==> (r matches Ok(m) && m.wf() && crate::json::single_output(m@, object::object_result(input_or(inputs@, "value"@, JsonView::Object(Seq::empty()))))),
        action@ == "null"@ ==> (r matches Ok(m) && m.wf() && crate::json::single_output(m@, JsonView::Null)),
        action@ == "log"@ ==> (r matches Ok(m) && m.wf() && m@ == Map::<Seq<char>, JsonValue>::empty()),
        !system_actions().contains(action@) ==> (r matches Err(m) && m@ == "Unknown system action "@ + action@),
{
    proof {
        lemma_action_names_distinct();
    }
    if str_eq(action, "start") {
        start::execute(inputs)
    } else if str_eq(action, "end") {
        end::execute(inputs)
    } else if str_eq(action, "string") {
        string::execute(inputs)
    } else if str_eq(action, "number") {
        number::execute(inputs, read_float)
    } else if str_eq(action, "boolean") {
        boolean::execute(inputs)
    } else if str_eq(action, "object") {
        object::execute(inputs)
    } else if str_eq(action, "null") {
        null::execute(inputs)
    } else if str_eq(action, "log") {
        log::execute(inputs)
    } else {
        Err(concat("Unknown system action ", action))
    }
}

/// Whether `plugin`/`action` names a node of the system plugin.
pub open spec fn system_node(plugin: Seq<char>, action: Seq<char>) -> bool {
    plugin == "system"@ && system_actions().contains(action)
}

/// Whether `plugin`/`action` names a primitive (value) node of the system plugin.
pub open spec fn primitive_node(plugin: Seq<char>, action: Seq<char>) -> bool {
    plugin == "system"@ && set!["string"@, "number"@, "boolean"@, "object"@, "null"@].contains(action)
}

/// Checks if plugin/action is a system node.
pub fn is_system_node(plugin: &str, action: &str) -> (r: bool)
    ensures
        r == system_node(plugin@, action@),
{
    str_eq(plugin, "system") && (str_eq(action, "start") || str_eq(action, "end") || str_eq(action, "string")
        || str_eq(action, "number") || str_eq(action, "boolean") || str_eq(action, "object") || str_eq(action, "null")
        || str_eq(action, "log"))
}

/// Checks if a node is the start node.
pub fn is_start_node(plugin: &str, action: &str) -> (r: bool)
    ensures
        r == (plugin@ == "system"@ && action@ == "start"@),
{
    str_eq(plugin, "system") && str_eq(action, "start")
}

/// Checks if a node is an end node.
pub fn is_end_node(plugin: &str, action: &str) -> (r: bool)
    ensures
        r == (plugin@ == "system"@ && action@ == "end"@),
{
    str_eq(plugin, "system") && str_eq(action, "end")
}

/// Checks if a node is a primitive.
pub fn is_primitive_node(plugin: &str, action: &str) -> (r: bool)
    ensures
        r == primitive_node(plugin@, action@),
{
    str_eq(plugin, "system") && (str_eq(action, "string") || str_eq(action, "number") || str_eq(action, "boolean")
        || str_eq(action, "object") || str_eq(action, "null"))
}

/// Checks if a node is a log node.
pub fn is_log_node(plugin: &str, action: &str) -> (r: bool)
    ensures
        r == (plugin@ == "system"@ && action@ == "log"@),
{
    str_eq(plugin, "system") && str_eq(action, "log")
}

/// The system plugin's nodes are exactly the nodes of plugin `system` whose
/// action is one of `start`, `end`, `string`, `number`, `boolean`,
/// `object`, `null` and `log`.
pub proof fn law_system_nodes(plugin: Seq<char>, action: Seq<char>)
    ensures
        system_node(plugin, action) <==> plugin == "system"@ && (action == "start"@ || action == "end"@
            || action == "string"@ || action == "number"@ || action == "boolean"@ || action == "object"@
            || action == "null"@ || action == "log"@),
        primitive_node(plugin, action) <==> plugin == "system"@ && (action == "string"@ || action == "number"@
            || action == "boolean"@ || action == "object"@ || action == "null"@),
{
}

} // verus!
