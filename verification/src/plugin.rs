//! The plugin registry: plugin sources, registered plugins and their
//! actions, and how an action of a plugin is run.

use vstd::prelude::*;
use crate::models::{ParameterDefinition, ParameterType};
use crate::json::{JsonMap, JsonValue, JsonView, map_view};
use crate::json_text::{json_map_parse, parse_json_map};
use crate::strmap::{StrMap, keys_unique};
use crate::text::{str_eq, concat, count_of, count_char, prefix_before, suffix_after, before_first, after_first};

verus! {

/// Where plugins come from.
#[derive(Debug)]
pub enum SourceType {
    Git { url: String, branch: Option<String> },
    LocalPath { path: String },
}

/// A plugin source.
#[derive(Debug)]
pub struct PluginSource {
    pub id: String,
    pub source_type: SourceType,
    pub alias_prefix: Option<String>,
}

/// An action that a plugin offers.
#[derive(Debug)]
pub struct ActionDefinition {
    pub name: String,
    pub description: String,
    pub entrypoint: String,
    pub inputs: Vec<ParameterDefinition>,
    pub outputs: Vec<ParameterDefinition>,
}

/// A plugin manifest, as read from the YAML or JSON file at the root of the plugin.
#[derive(Debug)]
pub struct PluginManifest {
    pub name: String,
    pub version: String,
    pub runtime: String,
    pub actions: Vec<ActionDefinition>,
}

/// A registered plugin.
#[derive(Debug)]
pub struct Plugin {
    /// Unique id, `source_id:name`.
    pub id: String,
    /// Name from the manifest.
    pub name: String,
    pub version: String,
    /// Runtime (python, node, bash, ...).
    pub runtime: String,
    /// Directory of the plugin.
    pub path: String,
    /// Actions by name.
    pub actions: StrMap<ActionDefinition>,
}

/// The registry of plugins, by id and by name, and the sources to load them from.
pub struct PluginRegistry {
    plugins_by_id: StrMap<Plugin>,
    plugins_by_name: StrMap<Vec<String>>,
    sources: Vec<PluginSource>,
}

/// The texts of a list of strings.
pub open spec fn texts(v: Seq<String>) -> Seq<Seq<char>> {
    v.map_values(|s: String| s@)
}

/// The plugins that a list of ids names, skipping ids that are not registered.
pub open spec fn plugins_of(ids: Seq<Seq<char>>, by_id: Map<Seq<char>, Plugin>) -> Seq<Plugin>
    decreases ids.len(),
{
    if ids.len() == 0 {
        Seq::empty()
    } else {
        let rest = plugins_of(ids.drop_last(), by_id);
        if by_id.dom().contains(ids.last()) {
            rest.push(by_id[ids.last()])
        } else {
            rest
        }
    }
}


/// The id a plugin gets from a source: `source_id:` then the (prefixed) name.
pub open spec fn plugin_id_text(source: &PluginSource, name: Seq<char>) -> Seq<char> {
    source.id@ + ":"@ + match source.alias_prefix {
        Some(p) => p@ + name,
        None => name,
    }
}

/// Actions keyed by name (a later action with the same name wins).
pub open spec fn action_table(acts: Seq<ActionDefinition>) -> Map<Seq<char>, ActionDefinition>
    decreases acts.len(),
{
    if acts.len() == 0 {
        Map::empty()
    } else {
        action_table(acts.drop_last()).insert(acts.last().name@, acts.last())
    }
}

/// Builds the table of actions keyed by name.
pub fn actions_by_name(actions: Vec<ActionDefinition>) -> (r: StrMap<ActionDefinition>)
    ensures
        r.wf(),
        r@ == action_table(actions@),
{
    let mut table: StrMap<ActionDefinition> = StrMap::new();
    let mut rest = actions;
    let ghost all = rest@;
    let ghost mut k: int = 0;
    while rest.len() > 0
        invariant
            table.wf(),
            0 <= k <= all.len(),
            k + rest@.len() == all.len(),
            rest@ =~= all.skip(k),
            table@ == action_table(all.take(k)),
        decreases rest@.len(),
    {
        let act = rest.remove(0);
        assert(act == all[k]);
        let key = act.name.clone();
        table.insert(key, act);
        proof {
            assert(all.take(k + 1).drop_last() =~= all.take(k));
            k = k + 1;
        }
        assert(rest@ =~= all.skip(k));
    }
    assert(all.take(k) =~= all);
    table
}

/// The part of a git URL after its last `/`.
pub open spec fn last_segment(s: Seq<char>) -> Seq<char>
    decreases s.len(),
{
    if s.len() == 0 {
        s
    } else if s.last() == '/' {
        Seq::empty()
    } else {
        last_segment(s.drop_last()).push(s.last())
    }
}

/// `s` with every trailing `.git` removed.
pub open spec fn strip_git(s: Seq<char>) -> Seq<char>
    decreases s.len(),
{
    if s.len() >= 4 && s.skip(s.len() - 4) == ".git"@ {
        strip_git(s.take(s.len() - 4))
    } else {
        s
    }
}

/// The name of the checkout directory of a git source: the URL's last
/// path segment with trailing `.git` removed.
pub open spec fn repo_name_text(url: Seq<char>) -> Seq<char> {
    strip_git(last_segment(url))
}

/// A parameter with these fields (its description is present).
pub open spec fn param_is(
    p: ParameterDefinition,
    id: Seq<char>,
    name: Seq<char>,
    t: ParameterType,
    desc: Seq<char>,
    required: bool,
    multiple: bool,
    default: Option<JsonView>,
) -> bool {
    &&& p.id@ == id
    &&& p.name@ == name
    &&& p.param_type == t
    &&& p.description matches Some(d) && d@ == desc
    &&& p.required == required
    &&& p.multiple == multiple
    &&& match (p.default, default) {
        (None, None) => true,
        (Some(x), Some(y)) => x@ == y,
        _ => false,
    }
}

/// An action with this name, description and entry point.
pub open spec fn action_is(a: ActionDefinition, name: Seq<char>, desc: Seq<char>, entry: Seq<char>) -> bool {
    a.name@ == name && a.description@ == desc && a.entrypoint@ == entry
}

/// Builds a parameter definition with a description.
pub fn param(
    id: &str,
    name: &str,
    t: ParameterType,
    desc: &str,
    required: bool,
    multiple: bool,
    default: Option<JsonValue>,
) -> (r: ParameterDefinition)
    ensures
        r.id@ == id@,
        r.name@ == name@,
        r.param_type == t,
        r.description matches Some(d) && d@ == desc@,
        r.required == required,
        r.multiple == multiple,
        r.default == default,
{
    ParameterDefinition {
        id: String::from_str(id),
        name: String::from_str(name),
        param_type: t,
        description: Some(String::from_str(desc)),
        required,
        multiple,
        default,
    }
}

/// Builds an action definition.
pub fn action(
    name: &str,
    desc: &str,
    entry: &str,
    inputs: Vec<ParameterDefinition>,
    outputs: Vec<ParameterDefinition>,
) -> (r: ActionDefinition)
    ensures
        action_is(r, name@, desc@, entry@),
        r.inputs == inputs,
        r.outputs == outputs,
{
    ActionDefinition {
        name: String::from_str(name),
        description: String::from_str(desc),
        entrypoint: String::from_str(entry),
        inputs,
        outputs,
    }
}

impl PluginRegistry {
    /// Plugins by id.
    pub closed spec fn by_id(&self) -> Map<Seq<char>, Plugin> {
        self.plugins_by_id@
    }

    /// Plugin ids by plugin name, in registration order.
    pub closed spec fn by_name(&self) -> Map<Seq<char>, Seq<Seq<char>>> {
        self.plugins_by_name@.map_values(|v: Vec<String>| texts(v@))
    }

    /// The sources, in the order they were added.
    pub closed spec fn source_list(&self) -> Seq<PluginSource> {
        self.sources@
    }

    /// Internal consistency of the tables.
    pub closed spec fn wf(&self) -> bool {
        self.plugins_by_id.wf() && self.plugins_by_name.wf()
    }

    /// The ids listed under `name`, or none.
    pub open spec fn ids_named(&self, name: Seq<char>) -> Seq<Seq<char>> {
        if self.by_name().dom().contains(name) {
            self.by_name()[name]
        } else {
            Seq::empty()
        }
    }

    /// An empty registry.
    pub fn new() -> (r: PluginRegistry)
        ensures
            r.wf(),
            r.by_id() == Map::<Seq<char>, Plugin>::empty(),
            r.by_name() == Map::<Seq<char>, Seq<Seq<char>>>::empty(),
            r.source_list() == Seq::<PluginSource>::empty(),
    {
        let r = PluginRegistry { plugins_by_id: StrMap::new(), plugins_by_name: StrMap::new(), sources: Vec::new() };
        assert(r.by_name() =~= Map::<Seq<char>, Seq<Seq<char>>>::empty());
        r
    }

    /// The sources, in the order they were added.
    pub fn sources(&self) -> (r: &Vec<PluginSource>)
        ensures
            r@ == self.source_list(),
    {
        &self.sources
    }

    /// Adds a source, unless one with the same id is there.
    pub fn add_source(&mut self, source: PluginSource) -> (r: Result<(), String>)
        ensures
            final(self).wf() == old(self).wf(),
            final(self).by_id() == old(self).by_id(),
            final(self).by_name() == old(self).by_name(),
            (exists|i: int| 0 <= i < old(self).source_list().len() && (#[trigger] old(self).source_list()[i]).id@ == source.id@) ==> {
                &&& r matches Err(m) && m@ == "Source with ID '"@ + source.id@ + "' already exists"@
                &&& final(self).source_list() == old(self).source_list()
            },
            !(exists|i: int| 0 <= i < old(self).source_list().len() && (#[trigger] old(self).source_list()[i]).id@ == source.id@) ==> {
                &&& r is Ok
                &&& final(self).source_list() == old(self).source_list().push(source)
            },
    {
        let mut i: usize = 0;
        while i < self.sources.len()
            invariant
                i <= self.sources@.len(),
                forall|j: int| 0 <= j < i ==> (#[trigger] self.sources@[j]).id@ != source.id@,
            decreases self.sources@.len() - i,
        {
            if str_eq(self.sources[i].id.as_str(), source.id.as_str()) {
                let a = concat("Source with ID '", source.id.as_str());
                return Err(concat(a.as_str(), "' already exists"));
            }
            i = i + 1;
        }
        self.sources.push(source);
        Ok(())
    }

    /// Appends `id` to the ids listed under `name`.
    fn index_name(&mut self, name: &String, id: String)
        requires
            old(self).wf(),
        ensures
            final(self).wf(),
            final(self).by_id() == old(self).by_id(),
            final(self).source_list() == old(self).source_list(),
            final(self).by_name() == old(self).by_name().insert(name@, old(self).ids_named(name@).push(id@)),
    {
        let ghost old_map = self.plugins_by_name@;
        let list = self.plugins_by_name.remove(name.as_str());
        let mut ids = match list {
            Some(v) => v,
            None => Vec::new(),
        };
        let ghost before = ids@;
        assert(texts(before) =~= old(self).ids_named(name@));
        ids.push(id);
        assert(texts(ids@) =~= texts(before).push(id@));
        self.plugins_by_name.insert(name.clone(), ids);
        assert(self.plugins_by_name@ == old_map.remove(name@).insert(name@, ids));
        assert(self.by_name() =~= old(self).by_name().insert(name@, old(self).ids_named(name@).push(id@)));
    }

    /// Registers a plugin under its id and name, unless its id is taken.
    pub fn register_plugin(&mut self, plugin: Plugin) -> (r: Result<(), String>)
        requires
            old(self).wf(),
        ensures
            final(self).wf(),
            final(self).source_list() == old(self).source_list(),
            old(self).by_id().dom().contains(plugin.id@) ==> {
                &&& r matches Err(m) && m@ == "Plugin with ID "@ + plugin.id@ + " already exists"@
                &&& final(self).by_id() == old(self).by_id()
                &&& final(self).by_name() == old(self).by_name()
            },
            !old(self).by_id().dom().contains(plugin.id@) ==> {
                &&& r is Ok
                &&& final(self).by_id() == old(self).by_id().insert(plugin.id@, plugin)
                &&& final(self).by_name() == old(self).by_name().insert(
                    plugin.name@,
                    old(self).ids_named(plugin.name@).push(plugin.id@),
                )
            },
    {
        if self.plugins_by_id.contains_key(plugin.id.as_str()) {
            let a = concat("Plugin with ID ", plugin.id.as_str());
            return Err(concat(a.as_str(), " already exists"));
        }
        let id = plugin.id.clone();
        let id_listed = plugin.id.clone();
        let name = plugin.name.clone();
        self.plugins_by_id.insert(id, plugin);
        self.index_name(&name, id_listed);
        Ok(())
    }

    /// The plugins registered under `name`, in registration order.
    pub fn find_plugins(&self, name: &str) -> (r: Vec<&Plugin>)
        requires
            self.wf(),
        ensures
            r@.map_values(|p: &Plugin| *p) == plugins_of(self.ids_named(name@), self.by_id()),
    {
        let mut out: Vec<&Plugin> = Vec::new();
        match self.plugins_by_name.get(name) {
            None => {
                assert(out@.map_values(|p: &Plugin| *p) =~= Seq::<Plugin>::empty());
                out
            },
            Some(ids) => {
                let ghost names = texts(ids@);
                assert(names == self.ids_named(name@));
                let mut i: usize = 0;
                while i < ids.len()
                    invariant
                        self.wf(),
                        names == texts(ids@),
                        i <= ids@.len(),
                        out@.map_values(|p: &Plugin| *p) == plugins_of(names.take(i as int), self.by_id()),
                    decreases ids@.len() - i,
                {
                    assert(names.take(i + 1).drop_last() =~= names.take(i as int));
                    match self.plugins_by_id.get(ids[i].as_str()) {
                        Some(p) => {
                            out.push(p);
                            assert(out@.map_values(|p: &Plugin| *p) =~= plugins_of(names.take(i as int), self.by_id()).push(*p));
                        },
                        None => {},
                    }
                    i = i + 1;
                }
                assert(names.take(ids@.len() as int) =~= names);
                out
            },
        }
    }

    /// Registers the plugin that a parsed manifest describes: its name takes the
    /// source's alias prefix, its id is `source_id:name`, and its actions are keyed
    /// by action name. A plugin with the same id is replaced; the id is listed
    /// under the manifest's own name.
    pub fn install_manifest(&mut self, manifest: PluginManifest, source: &PluginSource, dir: String)
        requires
            old(self).wf(),
        ensures
            final(self).wf(),
            final(self).source_list() == old(self).source_list(),
            final(self).by_id() == old(self).by_id().insert(
                plugin_id_text(source, manifest.name@),
                final(self).by_id()[plugin_id_text(source, manifest.name@)],
            ),
            ({
                let p = final(self).by_id()[plugin_id_text(source, manifest.name@)];
                &&& p.id@ == plugin_id_text(source, manifest.name@)
                &&& p.name@ == manifest.name@
                &&& p.version == manifest.version
                &&& p.runtime == manifest.runtime
                &&& p.path == dir
                &&& p.actions.wf()
                &&& p.actions@ == action_table(manifest.actions@)
            }),
            final(self).by_name() == old(self).by_name().insert(
                manifest.name@,
                old(self).ids_named(manifest.name@).push(plugin_id_text(source, manifest.name@)),
            ),
    {
        let plugin_name = match &source.alias_prefix {
            Some(prefix) => concat(prefix.as_str(), manifest.name.as_str()),
            None => manifest.name.clone(),
        };
        let a = concat(source.id.as_str(), ":");
        let plugin_id = concat(a.as_str(), plugin_name.as_str());
        assert(plugin_id@ == plugin_id_text(source, manifest.name@));
        let name = manifest.name.clone();
        let PluginManifest { name: _, version, runtime, actions } = manifest;
        let table = actions_by_name(actions);
        let plugin = Plugin { id: plugin_id.clone(), name: name.clone(), version, runtime, path: dir, actions: table };
        let listed = plugin_id.clone();
        self.plugins_by_id.insert(plugin_id, plugin);
        self.index_name(&name, listed);
    }
}

proof fn lemma_last_segment(s: Seq<char>, j: int)
    requires
        -1 <= j < s.len(),
        j >= 0 ==> s[j] == '/',
        forall|k: int| j < k < s.len() ==> s[k] != '/',
    ensures
        last_segment(s) == s.skip(j + 1),
    decreases s.len(),
{
    if s.len() > 0 {
        if j == s.len() - 1 {
            assert(s.skip(j + 1) =~= Seq::<char>::empty());
        } else {
            lemma_last_segment(s.drop_last(), j);
            assert(s.skip(j + 1) =~= s.drop_last().skip(j + 1).push(s.last()));
        }
    } else {
        assert(s.skip(j + 1) =~= s);
    }
}

/// The name of the checkout directory of a git source.
pub fn repo_name(url: &str) -> (r: String)
    ensures
        r@ == repo_name_text(url@),
{
    let n = url.unicode_len();
    let mut i: usize = n;
    let mut found = false;
    while i > 0 && !found
        invariant
            n == url@.len(),
            i <= n,
            forall|k: int| i <= k < n ==> url@[k] != '/',
            found ==> i > 0 && url@[i - 1] == '/',
        decreases i, if found { 0int } else { 1int },
    {
        if url.get_char(i - 1) == '/' {
            found = true;
        } else {
            i = i - 1;
        }
    }
    proof {
        lemma_last_segment(url@, i - 1);
    }
    let seg = url.substring_char(i, n);
    let mut cur = String::from_str(seg);
    proof {
        reveal_strlit(".git");
    }
    loop
        invariant
            strip_git(cur@) == repo_name_text(url@),
        decreases cur@.len(),
    {
        let m = cur.as_str().unicode_len();
        if m >= 4 {
            let tail = cur.as_str().substring_char(m - 4, m);
            if str_eq(tail, ".git") {
                let head = cur.as_str().substring_char(0, m - 4);
                let next = String::from_str(head);
                cur = next;
                continue;
            }
        }
        return cur;
    }
}

/// A command to run: program, arguments and working directory.
#[derive(Debug)]
pub struct CommandSpec {
    pub program: String,
    pub args: Vec<String>,
    pub dir: String,
}

/// How to run an action of a plugin.
#[derive(Debug)]
pub enum ActionPlan {
    /// A built-in action of the system plugin.
    System,
    /// A command to run with the inputs as JSON on its standard input.
    Command(CommandSpec),
    /// A shell script: `entrypoint` resolved against `dir`, run with `bash`
    /// (it must exist).
    Script { dir: String, entrypoint: String },
}

/// Reads what an action printed: the members of a JSON object, as
/// `serde_json` reads them into a map; otherwise an error that carries the
/// reader's message.
pub fn read_action_output(output: &str) -> (r: Result<JsonMap, String>)
    ensures
        match r {
            Ok(m) => m.wf() && json_map_parse(output@) == Ok::<Map<Seq<char>, JsonView>, Seq<char>>(map_view(m@)),
            Err(e) => json_map_parse(output@) matches Err(t) && e@ == "Failed to parse action output: "@ + t,
        },
{
    match parse_json_map(output) {
        Ok(m) => Ok(m),
        Err(t) => Err(concat("Failed to parse action output: ", t.as_str())),
    }
}

/// Runs plugin actions.
pub struct PluginExecutor;

/// The program that the Python runtime runs for `module:function`.
pub open spec fn python_script(module: Seq<char>, function: Seq<char>) -> Seq<char> {
    "import json,sys; from "@ + module + " import "@ + function + "; result = "@ + function
        + " (json.loads(sys.stdin.read()));print(json.dumps(result))"@
}

/// The program that the Node.js runtime runs for `module:function`.
pub open spec fn node_script(module: Seq<char>, function: Seq<char>) -> Seq<char> {
    "const fs = require('fs'); const { "@ + function + " } = require('./"@ + module
        + "'); process.stdin.on('data', data => { const input = JSON.parse(data.toString()); const result = "@
        + function + "(input); console.log(JSON.stringify(result)); });"@
}

/// Whether the runtime is one of the given names.
pub open spec fn runtime_is(r: Seq<char>, a: Seq<char>, b: Seq<char>) -> bool {
    r == a || r == b
}

/// An entry point of the form `module:function` (exactly one colon).
pub open spec fn entrypoint_ok(e: Seq<char>) -> bool {
    count_char(e, ':') == 1
}

impl PluginExecutor {
    /// A plugin executor.
    pub fn new() -> (r: PluginExecutor)
        ensures
            r == PluginExecutor,
    {
        PluginExecutor
    }

    /// Decides how to run action `action_name` of `plugin`: the system
    /// plugin's actions run in-process; otherwise the action must exist and
    /// the plugin's runtime must be python(3), node(js) or bash/sh.
    pub fn plan_action(&self, plugin: &Plugin, action_name: &str) -> (r: Result<ActionPlan, String>)
        requires
            plugin.actions.wf(),
        ensures
            plugin.name@ == "system"@ ==> r matches Ok(ActionPlan::System),
            plugin.name@ != "system"@ && !plugin.actions@.dom().contains(action_name@) ==> (r matches Err(m)
                && m@ == "Action '"@ + action_name@ + "' not found in plugin "@ + plugin.name@),
            plugin.name@ != "system"@ && plugin.actions@.dom().contains(action_name@) ==> ({
                let e = plugin.actions@[action_name@].entrypoint@;
                let rt = plugin.runtime@;
                let m = before_first(e, ':');
                let f = after_first(e, ':');
                &&& runtime_is(rt, "python"@, "python3"@) ==> if entrypoint_ok(e) {
                    r matches Ok(ActionPlan::Command(c)) && c.program@ == "python"@ && c.dir@ == plugin.path@
                        && c.args@.len() == 2 && c.args@[0]@ == "-c"@ && c.args@[1]@ == python_script(m, f)
                } else {
                    r matches Err(msg) && msg@ == "Invalid Python entrypoint format: "@ + e
                }
                &&& runtime_is(rt, "node"@, "nodejs"@) ==> if entrypoint_ok(e) {
                    r matches Ok(ActionPlan::Command(c)) && c.program@ == "node"@ && c.dir@ == plugin.path@
                        && c.args@.len() == 2 && c.args@[0]@ == "-e"@ && c.args@[1]@ == node_script(m, f)
                } else {
                    r matches Err(msg) && msg@ == "Invalid node entrypoint format: "@ + e
                }
                &&& runtime_is(rt, "bash"@, "sh"@) ==> (r matches Ok(ActionPlan::Script { dir, entrypoint })
                    && dir@ == plugin.path@ && entrypoint@ == e)
                &&& !runtime_is(rt, "python"@, "python3"@) && !runtime_is(rt, "node"@, "nodejs"@)
                    && !runtime_is(rt, "bash"@, "sh"@) ==> (r matches Err(msg) && msg@ == "Unsupported runtime: "@ + rt)
            }),
    {
        proof {
            reveal_strlit("python");
            reveal_strlit("python3");
            reveal_strlit("node");
            reveal_strlit("nodejs");
            reveal_strlit("bash");
            reveal_strlit("sh");
        }
        if str_eq(plugin.name.as_str(), "system") {
            return Ok(ActionPlan::System);
        }
        let action = match plugin.actions.get(action_name) {
            Some(a) => a,
            None => {
                let a = concat("Action '", action_name);
                let b = concat(a.as_str(), "' not found in plugin ");
                return Err(concat(b.as_str(), plugin.name.as_str()));
            },
        };
        let rt = plugin.runtime.as_str();
        let e = action.entrypoint.as_str();
        if str_eq(rt, "python") || str_eq(rt, "python3") {
            assert(rt@[0] == 'p');
            assert(rt@ != "node"@ && rt@ != "nodejs"@ && rt@ != "bash"@ && rt@ != "sh"@) by {
                assert("node"@[0] == 'n');
                assert("nodejs"@[0] == 'n');
                assert("bash"@[0] == 'b');
                assert("sh"@[0] == 's');
            }
            if count_of(e, ':') != 1 {
                return Err(concat("Invalid Python entrypoint format: ", e));
            }
            let m = prefix_before(e, ':');
            let f = suffix_after(e, ':');
            let s1 = concat("import json,sys; from ", m.as_str());
            let s2 = concat(s1.as_str(), " import ");
            let s3 = concat(s2.as_str(), f.as_str());
            let s4 = concat(s3.as_str(), "; result = ");
            let s5 = concat(s4.as_str(), f.as_str());
            let script = concat(s5.as_str(), " (json.loads(sys.stdin.read()));print(json.dumps(result))");
            let mut args: Vec<String> = Vec::new();
            args.push(String::from_str("-c"));
            args.push(script);
            return Ok(ActionPlan::Command(CommandSpec { program: String::from_str("python"), args, dir: plugin.path.clone() }));
        }
        if str_eq(rt, "node") || str_eq(rt, "nodejs") {
            assert(rt@[0] == 'n');
            assert(rt@ != "bash"@ && rt@ != "sh"@) by {
                assert("bash"@[0] == 'b');
                assert("sh"@[0] == 's');
            }
            if count_of(e, ':') != 1 {
                return Err(concat("Invalid node entrypoint format: ", e));
            }
            let m = prefix_before(e, ':');
            let f = suffix_after(e, ':');
            let s1 = concat("const fs = require('fs'); const { ", f.as_str());
            let s2 = concat(s1.as_str(), " } = require('./");
            let s3 = concat(s2.as_str(), m.as_str());
            let s4 = concat(s3.as_str(), "'); process.stdin.on('data', data => { const input = JSON.parse(data.toString()); const result = ");
            let s5 = concat(s4.as_str(), f.as_str());
            let script = concat(s5.as_str(), "(input); console.log(JSON.stringify(result)); });");
            let mut args: Vec<String> = Vec::new();
            args.push(String::from_str("-e"));
            args.push(script);
            return Ok(ActionPlan::Command(CommandSpec { program: String::from_str("node"), args, dir: plugin.path.clone() }));
        }
        if str_eq(rt, "bash") || str_eq(rt, "sh") {
            return Ok(ActionPlan::Script { dir: plugin.path.clone(), entrypoint: action.entrypoint.clone() });
        }
        Err(concat("Unsupported runtime: ", rt))
    }
}


/// A plugin that was registered is the last of the plugins found under its
/// name.
pub proof fn law_registered_plugin_is_found(old_reg: PluginRegistry, new_reg: PluginRegistry, p: Plugin)
    requires
        new_reg.by_id() == old_reg.by_id().insert(p.id@, p),
        new_reg.by_name() == old_reg.by_name().insert(p.name@, old_reg.ids_named(p.name@).push(p.id@)),
    ensures
        plugins_of(new_reg.ids_named(p.name@), new_reg.by_id()).len() > 0,
        plugins_of(new_reg.ids_named(p.name@), new_reg.by_id()).last() == p,
{
    let ids = new_reg.ids_named(p.name@);
    assert(ids == old_reg.ids_named(p.name@).push(p.id@));
    assert(ids.drop_last() =~= old_reg.ids_named(p.name@));
}

/// The scripts that a planned action runs, as literal templates around the
/// entrypoint's module `m` and function `f`. The Node.js script parses its
/// standard input as JSON, applies `f` to it, and prints the JSON of what
/// `f` returned; the Python script does the same with `json.loads` and
/// `json.dumps`.
pub proof fn law_runtime_scripts(m: Seq<char>, f: Seq<char>)
    ensures
        node_script(m, f) == "const fs = require('fs'); const { "@ + f + " } = require('./"@ + m
            + "'); process.stdin.on('data', data => { const input = JSON.parse(data.toString()); const result = "@
            + f + "(input); console.log(JSON.stringify(result)); });"@,
        exists|p: Seq<char>| node_script(m, f) == p + "const input = JSON.parse(data.toString()); const result = "@ + f
            + "(input); console.log(JSON.stringify(result)); });"@,
        python_script(m, f) == "import json,sys; from "@ + m + " import "@ + f + "; result = "@ + f
            + " (json.loads(sys.stdin.read()));print(json.dumps(result))"@,
        exists|p: Seq<char>| python_script(m, f) == p + "; result = "@ + f
            + " (json.loads(sys.stdin.read()));print(json.dumps(result))"@,
{
    let a = "'); process.stdin.on('data', data => { const input = JSON.parse(data.toString()); const result = "@;
    let a1 = "'); process.stdin.on('data', data => { "@;
    let a2 = "const input = JSON.parse(data.toString()); const result = "@;
    reveal_strlit("'); process.stdin.on('data', data => { const input = JSON.parse(data.toString()); const result = ");
    reveal_strlit("'); process.stdin.on('data', data => { ");
    reveal_strlit("const input = JSON.parse(data.toString()); const result = ");
    assert(a =~= a1 + a2);
    let tail = f + "(input); console.log(JSON.stringify(result)); });"@;
    let p = "const fs = require('fs'); const { "@ + f + " } = require('./"@ + m + a1;
    assert(node_script(m, f) =~= p + a2 + tail);
    assert(node_script(m, f) =~= p + (a2 + tail));
    let q = "import json,sys; from "@ + m + " import "@ + f;
    assert(python_script(m, f) =~= q + ("; result = "@ + f + " (json.loads(sys.stdin.read()));print(json.dumps(result))"@));
}

/// `g` is a run of `.git`, repeated zero or more times.
pub open spec fn git_run(g: Seq<char>) -> bool
    decreases g.len(),
{
    g.len() == 0 || (g.len() >= 4 && g.skip(g.len() - 4) == ".git"@ && git_run(g.take(g.len() - 4)))
}

proof fn lemma_last_segment_split(s: Seq<char>)
    ensures
        last_segment(s).len() <= s.len(),
        s.skip(s.len() - last_segment(s).len()) == last_segment(s),
        last_segment(s).len() < s.len() ==> s[s.len() - last_segment(s).len() - 1] == '/',
        forall|i: int| 0 <= i < last_segment(s).len() ==> #[trigger] last_segment(s)[i] != '/',
    decreases s.len(),
{
    if s.len() == 0 {
        assert(s.skip(0) =~= s);
    } else if s.last() == '/' {
        assert(s.skip(s.len() as int) =~= Seq::<char>::empty());
    } else {
        let t = s.drop_last();
        lemma_last_segment_split(t);
        let lt = last_segment(t);
        let ls = last_segment(s);
        assert(ls == lt.push(s.last()));
        assert(s.skip(s.len() - ls.len()) =~= t.skip(t.len() - lt.len()).push(s.last()));
        if ls.len() < s.len() {
            assert(s[s.len() - ls.len() - 1] == t[t.len() - lt.len() - 1]);
        }
        assert forall|i: int| 0 <= i < ls.len() implies #[trigger] ls[i] != '/' by {
            if i < lt.len() {
                assert(ls[i] == lt[i]);
            }
        }
    }
}

proof fn lemma_strip_git(s: Seq<char>)
    ensures
        exists|g: Seq<char>| s == strip_git(s) + g && git_run(g),
        !(strip_git(s).len() >= 4 && strip_git(s).skip(strip_git(s).len() - 4) == ".git"@),
    decreases s.len(),
{
    if s.len() >= 4 && s.skip(s.len() - 4) == ".git"@ {
        let t = s.take(s.len() - 4);
        lemma_strip_git(t);
        let g0 = choose|g: Seq<char>| t == strip_git(t) + g && git_run(g);
        let g = g0 + ".git"@;
        reveal_strlit(".git");
        assert(g.skip(g.len() - 4) =~= ".git"@);
        assert(g.take(g.len() - 4) =~= g0);
        assert(strip_git(s) == strip_git(t));
        assert(s =~= t + s.skip(s.len() - 4));
        assert(s =~= strip_git(s) + g);
        assert(git_run(g));
    } else {
        assert(strip_git(s) == s);
        assert(git_run(Seq::<char>::empty()));
        assert(s =~= strip_git(s) + Seq::<char>::empty());
    }
}

/// The checkout directory of a git source is named by the URL's last path
/// segment with every trailing `.git` taken off: the name holds no `/`, does
/// not end in `.git`, and the URL is some text that is empty or ends in
/// `/`, then the name, then a run of `.git`.
pub proof fn law_repo_name(url: Seq<char>)
    ensures
        forall|i: int| 0 <= i < repo_name_text(url).len() ==> #[trigger] repo_name_text(url)[i] != '/',
        !(repo_name_text(url).len() >= 4 && repo_name_text(url).skip(repo_name_text(url).len() - 4) == ".git"@),
        exists|p: Seq<char>, g: Seq<char>| url == p + repo_name_text(url) + g && (p.len() == 0 || p.last() == '/') && git_run(g),
{
    let ls = last_segment(url);
    lemma_last_segment_split(url);
    lemma_strip_git(ls);
    let p = url.take(url.len() - ls.len());
    let g = choose|g: Seq<char>| ls == strip_git(ls) + g && git_run(g);
    assert(url =~= p + ls);
    assert(url =~= p + repo_name_text(url) + g);
    if p.len() > 0 {
        assert(p.last() == url[url.len() - ls.len() - 1]);
    }
    assert forall|i: int| 0 <= i < repo_name_text(url).len() implies #[trigger] repo_name_text(url)[i] != '/' by {
        assert(repo_name_text(url)[i] == ls[i]);
    }
}


/// A plugin's action table holds, under each name, the last action of its
/// list with that name, and holds exactly the names of the list.
pub proof fn law_action_table(acts: Seq<ActionDefinition>, k: Seq<char>)
    ensures
        action_table(acts).dom().contains(k) <==> exists|i: int| 0 <= i < acts.len() && (#[trigger] acts[i]).name@ == k,
        action_table(acts).dom().contains(k) ==> exists|i: int| 0 <= i < acts.len() && (#[trigger] acts[i]).name@ == k
            && action_table(acts)[k] == acts[i] && forall|j: int| i < j < acts.len() ==> (#[trigger] acts[j]).name@ != k,
    decreases acts.len(),
{
    if acts.len() > 0 {
        let pre = acts.drop_last();
        law_action_table(pre, k);
        if acts.last().name@ == k {
            let i = acts.len() - 1;
            assert(acts[i].name@ == k && action_table(acts)[k] == acts[i]);
        } else {
            if action_table(acts).dom().contains(k) {
                let i = choose|i: int| 0 <= i < pre.len() && (#[trigger] pre[i]).name@ == k
                    && action_table(pre)[k] == pre[i] && forall|j: int| i < j < pre.len() ==> (#[trigger] pre[j]).name@ != k;
                assert(acts[i] == pre[i]);
                assert forall|j: int| i < j < acts.len() implies (#[trigger] acts[j]).name@ != k by {
                    if j < pre.len() {
                        assert(acts[j] == pre[j]);
                    }
                }
            }
            if exists|i: int| 0 <= i < acts.len() && (#[trigger] acts[i]).name@ == k {
                let i = choose|i: int| 0 <= i < acts.len() && (#[trigger] acts[i]).name@ == k;
                assert(pre[i] == acts[i]);
            }
        }
    }
}

} // verus!
