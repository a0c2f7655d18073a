use moirai::engine::job_manager::{find_ready_node, has_active_nodes, has_pending_nodes, has_running_nodes};
use moirai::models::{NodeStatus, ParameterType};
use moirai::json::{JsonNumber, JsonValue};
use moirai::plugin::{action, param, read_action_output, ActionPlan, PluginExecutor, PluginManifest, PluginRegistry, PluginSource, SourceType};
use moirai::plugin_manager::{PluginManager, PluginManifest as PmManifest};
use moirai::strmap::StrMap;

fn pl_source(id: &str, alias: Option<&str>) -> PluginSource {
    PluginSource {
        id: id.to_string(),
        source_type: SourceType::LocalPath { path: format!("/plugins/{}", id) },
        alias_prefix: alias.map(|a| a.to_string()),
    }
}

fn pl_manifest(name: &str, runtime: &str, entry: &str) -> PluginManifest {
    PluginManifest {
        name: name.to_string(),
        version: "2.0.0".to_string(),
        runtime: runtime.to_string(),
        actions: vec![action(
            "run",
            "Runs",
            entry,
            vec![param("x", "X", ParameterType::Number, "An x", true, false, None)],
            vec![],
        )],
    }
}

#[test]
fn sources_are_added_once() {
    let mut registry = PluginRegistry::new();
    assert!(registry.add_source(pl_source("local", None)).is_ok());
    assert_eq!(registry.add_source(pl_source("local", None)).err(), Some("Source with ID 'local' already exists".to_string()));
    assert_eq!(registry.sources().len(), 1);
}

#[test]
fn installed_manifests_are_found_by_name() {
    let mut registry = PluginRegistry::new();
    registry.install_manifest(pl_manifest("tools", "python", "mod:fn"), &pl_source("local", Some("my_")), "/plugins/local".to_string());
    let found = registry.find_plugins("tools");
    assert_eq!(found.len(), 1);
    assert_eq!(found[0].id, "local:my_tools");
    assert_eq!(found[0].name, "tools");
    assert_eq!(found[0].path, "/plugins/local");
    assert!(found[0].actions.contains_key("run"));
    assert!(registry.find_plugins("my_tools").is_empty());
}

#[test]
fn action_plans_by_runtime() {
    let mut registry = PluginRegistry::new();
    let src = pl_source("s", None);
    registry.install_manifest(pl_manifest("py", "python3", "tool:main"), &src, "/p/py".to_string());
    registry.install_manifest(pl_manifest("js", "node", "tool:main"), &src, "/p/js".to_string());
    registry.install_manifest(pl_manifest("sh", "bash", "run.sh"), &src, "/p/sh".to_string());
    registry.install_manifest(pl_manifest("rb", "ruby", "x:y"), &src, "/p/rb".to_string());
    registry.install_manifest(pl_manifest("bad", "python", "no_colon"), &src, "/p/bad".to_string());
    let ex = PluginExecutor::new();

    match ex.plan_action(registry.find_plugins("py")[0], "run") {
        Ok(ActionPlan::Command(c)) => {
            assert_eq!(c.program, "python");
            assert_eq!(c.dir, "/p/py");
            assert_eq!(c.args[0], "-c");
            assert_eq!(
                c.args[1],
                "import json,sys; from tool import main; result = main (json.loads(sys.stdin.read()));print(json.dumps(result))"
            );
        }
        other => panic!("unexpected {:?}", other),
    }
    match ex.plan_action(registry.find_plugins("js")[0], "run") {
        Ok(ActionPlan::Command(c)) => {
            assert_eq!(c.program, "node");
            assert_eq!(c.args[0], "-e");
            assert!(c.args[1].starts_with("const fs = require('fs'); const { main } = require('./tool');"));
        }
        other => panic!("unexpected {:?}", other),
    }
    match ex.plan_action(registry.find_plugins("sh")[0], "run") {
        Ok(ActionPlan::Script { dir, entrypoint }) => {
            assert_eq!(dir, "/p/sh");
            assert_eq!(entrypoint, "run.sh");
        }
        other => panic!("unexpected {:?}", other),
    }
    assert_eq!(ex.plan_action(registry.find_plugins("rb")[0], "run").err(), Some("Unsupported runtime: ruby".to_string()));
    assert_eq!(
        ex.plan_action(registry.find_plugins("bad")[0], "run").err(),
        Some("Invalid Python entrypoint format: no_colon".to_string())
    );
    assert_eq!(
        ex.plan_action(registry.find_plugins("py")[0], "walk").err(),
        Some("Action 'walk' not found in plugin py".to_string())
    );
}

#[test]
fn system_plugin_actions_run_in_process() {
    let mut registry = PluginRegistry::new();
    moirai::system_plugin::register_system_plugin(&mut registry).unwrap();
    let ex = PluginExecutor::new();
    assert!(matches!(ex.plan_action(registry.find_plugins("system")[0], "anything"), Ok(ActionPlan::System)));
}

#[test]
fn status_table_questions() {
    let mut st: StrMap<NodeStatus> = StrMap::new();
    st.insert("a".to_string(), NodeStatus::Pending);
    st.insert("b".to_string(), NodeStatus::Success);
    assert!(!has_active_nodes(&st));
    assert!(has_pending_nodes(&st));
    assert!(!has_running_nodes(&st));
    assert_eq!(find_ready_node(&st), None);
    st.insert("a".to_string(), NodeStatus::Ready);
    assert!(has_active_nodes(&st));
    assert!(!has_pending_nodes(&st));
    assert_eq!(find_ready_node(&st), Some("a".to_string()));
    st.insert("a".to_string(), NodeStatus::Running);
    assert!(has_running_nodes(&st));
    assert!(has_active_nodes(&st));
}

#[test]
fn plugin_manager_lists_namespaces() {
    let mut pm = PluginManager::new();
    for ns in ["alpha", "beta"] {
        let m = PmManifest {
            plugin_fqdn: ns.to_string(),
            version: "1.0.0".to_string(),
            author: None,
            created: None,
            metadata: None,
            types: vec![],
            nodes: vec![],
            executor: None,
            runtime: None,
        };
        pm.add_plugin(ns, m, format!("/{}", ns), vec![], vec![], vec![], vec![]).unwrap();
    }
    let mut names = pm.list_namespaces();
    names.sort();
    assert_eq!(names, vec!["alpha".to_string(), "beta".to_string()]);
    assert_eq!(pm.get("beta").unwrap().root, "/beta");
    assert!(pm.get("gamma").is_none());
}

#[test]
fn strmap_keeps_the_last_value() {
    let mut m: StrMap<u32> = StrMap::new();
    m.insert("k".to_string(), 1);
    m.insert("k".to_string(), 2);
    assert_eq!(m.len(), 1);
    assert_eq!(m.get("k"), Some(&2));
    assert_eq!(m.remove("k"), Some(2));
    assert!(m.is_empty());
}

#[test]
fn action_output_is_read_as_an_object() {
    let m = read_action_output(r#"{"out": "done", "n": -2, "out": "again"}"#).unwrap();
    assert!(matches!(m.get("out"), Some(JsonValue::String(s)) if s == "again"));
    assert!(matches!(m.get("n"), Some(JsonValue::Number(JsonNumber::NegInt(-2)))));
    assert_eq!(m.entries.len(), 2);
    let e = read_action_output("[1, 2]").unwrap_err();
    assert!(e.starts_with("Failed to parse action output: "));
    assert!(e.len() > "Failed to parse action output: ".len());
    assert!(read_action_output("not json").is_err());
}
