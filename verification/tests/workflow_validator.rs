use moirai::json::JsonValue;
use moirai::plugin_manager::{PluginManager, PluginManifest};
use moirai::specs::{DataType, EdgeDefinition, IOField, NodeMetadata, NodeSpec, TypeMetadata, TypeProperties};
use moirai::strmap::StrMap;
use moirai::workflow_validator::{check_structure, validate_definition, NodeInstance, StructureError, WorkflowDefinition, WorkflowError};

fn wv_node(id: &str, fqdn: &str) -> NodeInstance {
    NodeInstance { id: id.to_string(), node_fqdn: fqdn.to_string(), inputs: None, value: None }
}

fn wv_edge(from: &str, out: &str, to: &str, input: &str) -> EdgeDefinition {
    EdgeDefinition { from_node: from.to_string(), from_output: out.to_string(), to_node: to.to_string(), to_input: input.to_string() }
}

fn wv_def(version: &str, nodes: Vec<NodeInstance>, edges: Vec<EdgeDefinition>) -> WorkflowDefinition {
    WorkflowDefinition { version: version.to_string(), name: "wf".to_string(), metadata: None, nodes, edges }
}

#[test]
fn struct_missing_start() {
    let mut log = wv_node("n1", "sys:log");
    log.inputs = Some(StrMap::new());
    let def = wv_def("1.0", vec![log], vec![]);
    let err = check_structure(&def).unwrap_err();
    match err {
        StructureError::StartNodeCount(cnt) if cnt == 0 => {}
        _ => panic!("Expected StartNodeCount(0), got {:?}", err),
    }
}

#[test]
fn struct_missing_node_id_in_edge() {
    let def = wv_def("1.0", vec![wv_node("n1", "sys:start")], vec![wv_edge("nX", "__success__", "n1", "__input__")]);
    let err = check_structure(&def).unwrap_err();
    match err {
        StructureError::MissingNode(ref id) if id == "nX" => {}
        _ => panic!("expected MissingNode(\"nX\"), got {:?}", err),
    }
}

#[test]
fn struct_empty_port_name() {
    let def = wv_def("1.0", vec![wv_node("n1", "sys:start")], vec![wv_edge("n1", "   ", "n1", "__input__")]);
    let err = check_structure(&def).unwrap_err();
    match err {
        StructureError::EmptyPort => {}
        _ => panic!("expected EmptyPort, got {:?}", err),
    }
}

#[test]
fn heavy_version_mismatch() {
    let def = wv_def("2.0", vec![wv_node("n1", "sys:start")], vec![]);
    let pm = PluginManager::new();
    let err = validate_definition(def, &pm).unwrap_err();
    match err {
        WorkflowError::Validation(ref msg) if msg.contains("Unsupported workflow version: 2.0") => {}
        _ => panic!("Expected version mismatch error, got {:?}", err),
    }
}

#[test]
fn heavy_duplicate_node_ids() {
    let def = wv_def("1.0", vec![wv_node("n0", "sys:start"), wv_node("n1", "sys:log"), wv_node("n1", "sys:log")], vec![]);
    let pm = PluginManager::new();
    let err = validate_definition(def, &pm).unwrap_err();
    match err {
        WorkflowError::Validation(ref msg) if msg.contains("Duplicate node Id: n1") => {}
        _ => panic!("Expected duplicate node id error, got {:?}", err),
    }
}

#[test]
fn heavy_unknown_edge_reference() {
    let def = wv_def("1.0", vec![wv_node("n1", "sys:start")], vec![wv_edge("n1", "__success__", "n2", "__input__")]);
    let pm = PluginManager::new();
    let err = validate_definition(def, &pm).unwrap_err();
    match err {
        WorkflowError::Structure(StructureError::MissingNode(ref id)) if id == "n2" => {}
        _ => panic!("Expected missing node error for 'n2', got {:?}", err),
    }
}

#[test]
fn heavy_invalid_fqdn_format() {
    let def = wv_def("1.0", vec![wv_node("n1", "sys:start"), wv_node("n2", "invalidFQDN")], vec![]);
    let pm = PluginManager::new();
    let err = validate_definition(def, &pm).unwrap_err();
    match err {
        WorkflowError::Validation(ref msg) if msg.contains("Invalid FQDN: invalidFQDN") => {}
        _ => panic!("Expected invalid FQDN error, got {:?}", err),
    }
}

#[test]
fn heavy_unknown_plugin_namespace() {
    let def = wv_def("1.0", vec![wv_node("n1", "sys:start"), wv_node("n2", "foo:bar")], vec![]);
    let pm = PluginManager::new();
    let err = validate_definition(def, &pm).unwrap_err();
    match err {
        WorkflowError::Validation(ref msg) if msg.contains("Unknown plugin namespace: foo") => {}
        _ => panic!("Expected unknown plugin namespace error, got {:?}", err),
    }
}

#[test]
fn two_start_nodes_are_counted() {
    let def = wv_def("1.0", vec![wv_node("a", "sys:start"), wv_node("b", "sys:start")], vec![]);
    assert!(matches!(check_structure(&def), Err(StructureError::StartNodeCount(2))));
}

fn wv_spec(fqdn: &str, input_type: &str) -> NodeSpec {
    NodeSpec {
        node_type: "action".to_string(),
        node_fqdn: fqdn.to_string(),
        plugin_version: "1.0.0".to_string(),
        node_version: "1.0.0".to_string(),
        class: None,
        inputs: vec![IOField { name: "in".to_string(), field_type: input_type.to_string(), multiple: false, required: true }],
        outputs: vec![IOField { name: "out".to_string(), field_type: "sys:string".to_string(), multiple: false, required: false }],
        metadata: NodeMetadata {
            display_name: "Bar".to_string(),
            description: "A node".to_string(),
            author: None,
            created: None,
            tags: None,
            icon: None,
        },
    }
}

fn wv_type(fqdn: &str) -> DataType {
    DataType {
        type_fqdn: fqdn.to_string(),
        version: "1.0.0".to_string(),
        metadata: TypeMetadata { display_name: "Num".to_string(), description: "A number".to_string(), author: None, created: None },
        properties: TypeProperties { kind: "primitive".to_string(), format: "application/x-float".to_string(), constraints: JsonValue::Null },
    }
}

fn wv_plugins(input_type: &str) -> PluginManager {
    let mut pm = PluginManager::new();
    let manifest = PluginManifest {
        plugin_fqdn: "foo".to_string(),
        version: "1.0.0".to_string(),
        author: None,
        created: None,
        metadata: None,
        types: vec!["types/num.json".to_string()],
        nodes: vec!["nodes/bar.json".to_string()],
        executor: None,
        runtime: None,
    };
    pm.add_plugin(
        "foo",
        manifest,
        "/p".to_string(),
        vec!["/p/types/num.json".to_string()],
        vec!["/p/nodes/bar.json".to_string()],
        vec![wv_type("foo:num")],
        vec![wv_spec("foo:bar", input_type)],
    )
    .unwrap();
    pm
}

#[test]
fn a_valid_workflow_comes_back() {
    let pm = wv_plugins("foo:num");
    let mut n2 = wv_node("n2", "foo:bar");
    n2.value = Some(JsonValue::Bool(true));
    let def = wv_def("1.0", vec![wv_node("n1", "sys:start"), n2], vec![wv_edge("n1", "__success__", "n2", "__input__")]);
    let ok = validate_definition(def, &pm).unwrap();
    assert_eq!(ok.nodes.len(), 2);
    assert_eq!(ok.edges[0].to_node, "n2");
}

#[test]
fn undeclared_nodes_are_refused() {
    let pm = wv_plugins("foo:num");
    let def = wv_def("1.0", vec![wv_node("n1", "sys:start"), wv_node("n2", "foo:x")], vec![]);
    let err = validate_definition(def, &pm).unwrap_err();
    assert!(matches!(err, WorkflowError::Validation(ref m) if m == "Unknown node: foo:x"));
}

#[test]
fn undeclared_types_are_refused() {
    let pm = wv_plugins("foo:missing");
    let def = wv_def("1.0", vec![wv_node("n1", "sys:start"), wv_node("n2", "foo:bar")], vec![]);
    let err = validate_definition(def, &pm).unwrap_err();
    assert!(matches!(err, WorkflowError::Validation(ref m) if m == "Unknown type: foo:missing"));
}

#[test]
fn plugin_fqdn_must_match_namespace() {
    let mut pm = PluginManager::new();
    let manifest = PluginManifest {
        plugin_fqdn: "other".to_string(),
        version: "1.0.0".to_string(),
        author: None,
        created: None,
        metadata: None,
        types: vec![],
        nodes: vec![],
        executor: None,
        runtime: None,
    };
    let err = pm.add_plugin("foo", manifest, "/p".to_string(), vec![], vec![], vec![], vec![]).unwrap_err();
    assert!(format!("{:?}", err).contains("does not match the config key 'foo'"));
    assert!(pm.get("foo").is_none());
}
