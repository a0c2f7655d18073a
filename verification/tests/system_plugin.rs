use moirai::json::{JsonMap, JsonNumber, JsonValue};
use moirai::models::ParameterType;
use moirai::plugin::PluginRegistry;
use moirai::strmap::StrMap;
use moirai::system_plugin;
use moirai::system_plugin::log::{log_line, LogStream};
use serde_json::Value;

fn sys_from_serde(v: &Value) -> JsonValue {
    match v {
        Value::Null => JsonValue::Null,
        Value::Bool(b) => JsonValue::Bool(*b),
        Value::Number(n) => {
            if let Some(u) = n.as_u64() {
                JsonValue::Number(JsonNumber::PosInt(u))
            } else if let Some(i) = n.as_i64() {
                JsonValue::Number(JsonNumber::NegInt(i))
            } else {
                JsonValue::Number(JsonNumber::Float(n.to_string()))
            }
        }
        Value::String(s) => JsonValue::String(s.clone()),
        Value::Array(a) => JsonValue::Array(a.iter().map(sys_from_serde).collect()),
        Value::Object(o) => JsonValue::Object(o.iter().map(|(k, v)| (k.clone(), sys_from_serde(v))).collect()),
    }
}

fn sys_to_serde(v: &JsonValue) -> Value {
    match v {
        JsonValue::Null => Value::Null,
        JsonValue::Bool(b) => Value::Bool(*b),
        JsonValue::Number(JsonNumber::PosInt(u)) => Value::from(*u),
        JsonValue::Number(JsonNumber::NegInt(i)) => Value::from(*i),
        JsonValue::Number(JsonNumber::Float(t)) => Value::from(t.parse::<f64>().unwrap()),
        JsonValue::String(s) => Value::String(s.clone()),
        JsonValue::Array(a) => Value::Array(a.iter().map(sys_to_serde).collect()),
        JsonValue::Object(o) => {
            let mut m = serde_json::Map::new();
            for (k, v) in o {
                m.insert(k.clone(), sys_to_serde(v));
            }
            Value::Object(m)
        }
    }
}

fn sys_read_float(s: &String) -> Option<JsonNumber> {
    match s.trim().parse::<f64>() {
        Ok(f) if f.is_finite() => serde_json::Number::from_f64(f).map(|n| JsonNumber::Float(n.to_string())),
        _ => None,
    }
}

fn sys_inputs(pairs: Vec<(&str, Value)>) -> JsonMap {
    let mut m: JsonMap = StrMap::new();
    for (k, v) in pairs {
        m.insert(k.to_string(), sys_from_serde(&v));
    }
    m
}

fn execute_action(action: &str, inputs: JsonMap) -> Result<JsonMap, String> {
    system_plugin::execute_system_action(action, inputs, &sys_read_float)
}

fn sys_output(result: &JsonMap, key: &str) -> Option<Value> {
    result.get(key).map(sys_to_serde)
}

fn obj(pairs: Vec<(&str, Value)>) -> Value {
    let mut m = serde_json::Map::new();
    for (k, v) in pairs {
        m.insert(k.to_string(), v);
    }
    Value::Object(m)
}

#[test]
fn test_string_primitive() {
    let result = execute_action("string", sys_inputs(vec![("value", Value::from("Hello, World!"))])).unwrap();
    assert_eq!(sys_output(&result, "output"), Some(Value::from("Hello, World!")));

    let result = execute_action("string", sys_inputs(vec![("value", Value::from(42))])).unwrap();
    assert_eq!(sys_output(&result, "output"), Some(Value::from("42")));

    let result = execute_action("string", sys_inputs(vec![("value", Value::from(true))])).unwrap();
    assert_eq!(sys_output(&result, "output"), Some(Value::from("true")));

    let result = execute_action("string", sys_inputs(vec![("value", Value::Null)])).unwrap();
    assert_eq!(sys_output(&result, "output"), Some(Value::from("null")));

    let result = execute_action("string", sys_inputs(vec![("value", obj(vec![("key", Value::from("value"))]))])).unwrap();
    assert_eq!(sys_output(&result, "output"), Some(Value::from("{object}")));
}

#[test]
fn test_number_primitive() {
    let result = execute_action("number", sys_inputs(vec![("value", Value::from(42))])).unwrap();
    assert_eq!(sys_output(&result, "output"), Some(Value::from(42)));

    let result = execute_action("number", sys_inputs(vec![("value", Value::from(3.14))])).unwrap();
    assert_eq!(sys_output(&result, "output"), Some(Value::from(3.14)));

    let result = execute_action("number", sys_inputs(vec![("value", Value::from("123"))])).unwrap();
    assert_eq!(sys_output(&result, "output"), Some(Value::from(123)));

    let result = execute_action("number", sys_inputs(vec![("value", Value::from("not a number"))])).unwrap();
    assert_eq!(sys_output(&result, "output"), Some(Value::from(0)));

    let result = execute_action("number", sys_inputs(vec![("value", Value::from(true))])).unwrap();
    assert_eq!(sys_output(&result, "output"), Some(Value::from(1)));

    let result = execute_action("number", sys_inputs(vec![("value", Value::from(false))])).unwrap();
    assert_eq!(sys_output(&result, "output"), Some(Value::from(0)));
}

#[test]
fn test_boolean_primitive() {
    let cases: Vec<(Value, bool)> = vec![
        (Value::from(true), true),
        (Value::from(false), false),
        (Value::from(0), false),
        (Value::from(1), true),
        (Value::from(""), false),
        (Value::from("hello"), true),
        (Value::from("true"), true),
        (Value::Array(vec![]), false),
        (Value::Array(vec![Value::from(1), Value::from(2), Value::from(3)]), true),
    ];
    for (input, expected) in cases {
        let result = execute_action("boolean", sys_inputs(vec![("value", input)])).unwrap();
        assert_eq!(sys_output(&result, "output"), Some(Value::from(expected)));
    }
}

#[test]
fn test_object_primitive() {
    let value = obj(vec![("name", Value::from("moirai")), ("type", Value::from("workflow"))]);
    let result = execute_action("object", sys_inputs(vec![("value", value.clone())])).unwrap();
    assert_eq!(sys_output(&result, "output"), Some(value));

    let result = execute_action("object", sys_inputs(vec![("value", Value::from("not an object"))])).unwrap();
    assert_eq!(sys_output(&result, "output"), Some(obj(vec![])));
}

#[test]
fn test_null_primitive() {
    let result = execute_action("null", StrMap::new()).unwrap();
    assert_eq!(sys_output(&result, "output"), Some(Value::Null));
}

#[test]
fn test_start_end_nodes() {
    let result = execute_action("start", sys_inputs(vec![("test", Value::from("value"))])).unwrap();
    assert_eq!(sys_output(&result, "test"), Some(Value::from("value")));

    let result = execute_action("end", sys_inputs(vec![("test", Value::from("value"))])).unwrap();
    assert_eq!(sys_output(&result, "test"), Some(Value::from("value")));
}

#[test]
fn test_register_system_plugin() {
    let mut registry = PluginRegistry::new();
    let result = system_plugin::register_system_plugin(&mut registry);
    assert!(result.is_ok());

    let plugins = registry.find_plugins("system");
    assert!(!plugins.is_empty(), "System plugin should be registered");

    let plugin = &plugins[0];

    assert!(plugin.actions.contains_key("start"));
    assert!(plugin.actions.contains_key("end"));
    assert!(plugin.actions.contains_key("string"));
    assert!(plugin.actions.contains_key("number"));
    assert!(plugin.actions.contains_key("boolean"));
    assert!(plugin.actions.contains_key("object"));
    assert!(plugin.actions.contains_key("null"));

    let string_action = plugin.actions.get("string").unwrap();
    assert_eq!(string_action.inputs.len(), 1);
    assert_eq!(string_action.inputs[0].param_type, ParameterType::String);

    let number_action = plugin.actions.get("number").unwrap();
    assert_eq!(number_action.inputs.len(), 1);
    assert_eq!(number_action.inputs[0].param_type, ParameterType::Number);

    let boolean_action = plugin.actions.get("boolean").unwrap();
    assert_eq!(boolean_action.inputs.len(), 1);
    assert_eq!(boolean_action.inputs[0].param_type, ParameterType::Boolean);
}

#[test]
fn test_system_node_checks() {
    assert!(system_plugin::is_system_node("system", "start"));
    assert!(system_plugin::is_system_node("system", "end"));
    assert!(system_plugin::is_system_node("system", "string"));
    assert!(system_plugin::is_system_node("system", "number"));
    assert!(system_plugin::is_system_node("system", "boolean"));
    assert!(system_plugin::is_system_node("system", "object"));
    assert!(system_plugin::is_system_node("system", "null"));

    assert!(!system_plugin::is_system_node("other", "start"));
    assert!(!system_plugin::is_system_node("system", "unknown"));

    assert!(system_plugin::is_start_node("system", "start"));
    assert!(!system_plugin::is_start_node("system", "end"));

    assert!(system_plugin::is_end_node("system", "end"));
    assert!(!system_plugin::is_end_node("system", "start"));

    assert!(system_plugin::is_primitive_node("system", "string"));
    assert!(system_plugin::is_primitive_node("system", "number"));
    assert!(system_plugin::is_primitive_node("system", "boolean"));
    assert!(system_plugin::is_primitive_node("system", "object"));
    assert!(system_plugin::is_primitive_node("system", "null"));
    assert!(!system_plugin::is_primitive_node("system", "start"));
    assert!(!system_plugin::is_primitive_node("system", "end"));
}

#[test]
fn test_log_node() {
    let result = execute_action("log", sys_inputs(vec![("message", Value::from("Hello, world!")), ("level", Value::from("info"))])).unwrap();
    assert!(result.is_empty());

    let lines = Value::Array(vec![Value::from("Line 1"), Value::from("Line 2"), Value::from("Line 3")]);
    let result = execute_action("log", sys_inputs(vec![("message", lines), ("level", Value::from("debug"))])).unwrap();
    assert!(result.is_empty());

    let result = execute_action("log", sys_inputs(vec![("message", Value::from("Warning message")), ("level", Value::from("warning"))])).unwrap();
    assert!(result.is_empty());

    let result = execute_action("log", sys_inputs(vec![("message", Value::from("Error message")), ("level", Value::from("error"))])).unwrap();
    assert!(result.is_empty());

    let result = execute_action("log", sys_inputs(vec![("message", Value::from(42))])).unwrap();
    assert!(result.is_empty());
}

#[test]
fn test_log_node_check() {
    assert!(system_plugin::is_log_node("system", "log"));
    assert!(!system_plugin::is_log_node("system", "start"));
    assert!(!system_plugin::is_log_node("other", "log"));
}

#[test]
fn unknown_system_action_is_refused() {
    let r = execute_action("explode", StrMap::new());
    assert_eq!(r.err(), Some("Unknown system action explode".to_string()));
}

#[test]
fn log_record_reads_level_and_lines() {
    let lines = Value::Array(vec![Value::from("a"), Value::from("b")]);
    let inputs = sys_inputs(vec![("message", lines), ("level", Value::from("WARN"))]);
    let rec = system_plugin::log::record(&inputs);
    assert_eq!(rec.level, system_plugin::log::LogLevel::Warning);
}

#[test]
fn log_levels_ignore_case() {
    let error = sys_inputs(vec![("message", Value::from("x")), ("level", Value::from("ERROR"))]);
    assert_eq!(system_plugin::log::record(&error).level, system_plugin::log::LogLevel::Error);
    let debug = sys_inputs(vec![("message", Value::from("x")), ("level", Value::from("Debug"))]);
    assert_eq!(system_plugin::log::record(&debug).level, system_plugin::log::LogLevel::Debug);
    let other = sys_inputs(vec![("message", Value::from("x")), ("level", Value::from("loud"))]);
    assert_eq!(system_plugin::log::record(&other).level, system_plugin::log::LogLevel::Info);
}

#[test]
fn number_of_negative_text() {
    let result = execute_action("number", sys_inputs(vec![("value", Value::from("-17"))])).unwrap();
    assert_eq!(sys_output(&result, "output"), Some(Value::from(-17)));
}

fn sys_debug(v: &JsonValue) -> String {
    format!("{:?}", sys_to_serde(v))
}

#[test]
fn log_lines_by_level() {
    let inputs = sys_inputs(vec![("message", Value::from("Hello, world!")), ("level", Value::from("info"))]);
    assert_eq!(log_line(&inputs, &sys_debug), (LogStream::Stdout, "INFO: Hello, world!".to_string()));

    let lines = Value::Array(vec![Value::from("Line 1"), Value::from("Line 2"), Value::from(3)]);
    let inputs = sys_inputs(vec![("message", lines), ("level", Value::from("debug"))]);
    assert_eq!(log_line(&inputs, &sys_debug), (LogStream::Stdout, "DEBUG: Line 1\nLine 2\nNumber(3)".to_string()));

    let inputs = sys_inputs(vec![("message", Value::from("Warning message")), ("level", Value::from("warn"))]);
    assert_eq!(log_line(&inputs, &sys_debug), (LogStream::Stdout, "WARNING: Warning message".to_string()));

    let inputs = sys_inputs(vec![("message", Value::from("Error message")), ("level", Value::from("Error"))]);
    assert_eq!(log_line(&inputs, &sys_debug), (LogStream::Stderr, "ERROR: Error message".to_string()));

    let inputs = sys_inputs(vec![("message", Value::from(42))]);
    assert_eq!(log_line(&inputs, &sys_debug), (LogStream::Stdout, "INFO: Number(42)".to_string()));

    assert_eq!(log_line(&StrMap::new(), &sys_debug), (LogStream::Stdout, "INFO: ".to_string()));
}
