use moirai::converter_plugin;
use moirai::json::{JsonMap, JsonNumber, JsonValue};
use moirai::models::ParameterType;
use moirai::plugin::PluginRegistry;
use moirai::strmap::StrMap;
use serde_json::Value;

fn conv_from_serde(v: &Value) -> JsonValue {
    match v {
        Value::Null => JsonValue::Null,
        Value::Bool(b) => JsonValue::Bool(*b),
        Value::Number(n) => {
            if let Some(u) = n.as_u64() {
                JsonValue::Number(JsonNumber::PosInt(u))
            } else if let Some(i) = n.as_i64() {
                JsonValue::Number(JsonNumber::NegInt(i))
            } else {
                JsonValue::Number(JsonNumber::Float(n.to_string()))
            }
        }
        Value::String(s) => JsonValue::String(s.clone()),
        Value::Array(a) => JsonValue::Array(a.iter().map(conv_from_serde).collect()),
        Value::Object(o) => JsonValue::Object(o.iter().map(|(k, v)| (k.clone(), conv_from_serde(v))).collect()),
    }
}

fn conv_to_serde(v: &JsonValue) -> Value {
    match v {
        JsonValue::Null => Value::Null,
        JsonValue::Bool(b) => Value::Bool(*b),
        JsonValue::Number(JsonNumber::PosInt(u)) => Value::from(*u),
        JsonValue::Number(JsonNumber::NegInt(i)) => Value::from(*i),
        JsonValue::Number(JsonNumber::Float(t)) => Value::from(t.parse::<f64>().unwrap()),
        JsonValue::String(s) => Value::String(s.clone()),
        JsonValue::Array(a) => Value::Array(a.iter().map(conv_to_serde).collect()),
        JsonValue::Object(o) => {
            let mut m = serde_json::Map::new();
            for (k, v) in o {
                m.insert(k.clone(), conv_to_serde(v));
            }
            Value::Object(m)
        }
    }
}

fn conv_render(v: &JsonValue, pretty: bool) -> String {
    let s = conv_to_serde(v);
    if pretty {
        serde_json::to_string_pretty(&s).unwrap_or_default()
    } else {
        serde_json::to_string(&s).unwrap_or_default()
    }
}

fn conv_inputs(pairs: Vec<(&str, Value)>) -> JsonMap {
    let mut m: JsonMap = StrMap::new();
    for (k, v) in pairs {
        m.insert(k.to_string(), conv_from_serde(&v));
    }
    m
}

fn execute_action(action: &str, inputs: JsonMap) -> Result<JsonMap, String> {
    converter_plugin::execute_converter_action(action, inputs, &conv_render)
}

fn conv_output(result: &JsonMap) -> Option<Value> {
    result.get("output").map(conv_to_serde)
}

fn conv_obj(pairs: Vec<(&str, Value)>) -> Value {
    let mut m = serde_json::Map::new();
    for (k, v) in pairs {
        m.insert(k.to_string(), v);
    }
    Value::Object(m)
}

#[test]
fn test_number_to_string_converter() {
    let result = execute_action("number_to_string", conv_inputs(vec![("value", Value::from(42))])).unwrap();
    assert_eq!(conv_output(&result), Some(Value::from("42")));

    let result = execute_action("number_to_string", conv_inputs(vec![("value", Value::from(3.14159))])).unwrap();
    assert_eq!(conv_output(&result), Some(Value::from("3.14159")));

    let result = execute_action("number_to_string", conv_inputs(vec![("value", Value::from(-999))])).unwrap();
    assert_eq!(conv_output(&result), Some(Value::from("-999")));
}

#[test]
fn test_boolean_to_string_converter() {
    let result = execute_action("boolean_to_string", conv_inputs(vec![("value", Value::from(true))])).unwrap();
    assert_eq!(conv_output(&result), Some(Value::from("true")));

    let result = execute_action("boolean_to_string", conv_inputs(vec![("value", Value::from(false))])).unwrap();
    assert_eq!(conv_output(&result), Some(Value::from("false")));

    let result = execute_action("boolean_to_string", conv_inputs(vec![("value", Value::from(true)), ("format", Value::from("yes/no"))])).unwrap();
    assert_eq!(conv_output(&result), Some(Value::from("yes")));

    let result = execute_action("boolean_to_string", conv_inputs(vec![("value", Value::from(false)), ("format", Value::from("1/0"))])).unwrap();
    assert_eq!(conv_output(&result), Some(Value::from("0")));

    let result = execute_action("boolean_to_string", conv_inputs(vec![("value", Value::from(true)), ("format", Value::from("on/off"))])).unwrap();
    assert_eq!(conv_output(&result), Some(Value::from("on")));
}

#[test]
fn test_array_to_string_converter() {
    let fruits = Value::Array(vec![Value::from("apple"), Value::from("banana"), Value::from("cherry")]);
    let result = execute_action("array_to_string", conv_inputs(vec![("array", fruits), ("separator", Value::from(", "))])).unwrap();
    assert_eq!(conv_output(&result), Some(Value::from("apple, banana, cherry")));

    let mixed = Value::Array(vec![Value::from(42), Value::from(true), Value::from("hello"), Value::Null]);
    let result = execute_action("array_to_string", conv_inputs(vec![("array", mixed), ("separator", Value::from(" | "))])).unwrap();
    assert_eq!(conv_output(&result), Some(Value::from("42 | true | hello | null")));

    let result = execute_action("array_to_string", conv_inputs(vec![("array", Value::Array(vec![]))])).unwrap();
    assert_eq!(conv_output(&result), Some(Value::from("")));

    let numbers = Value::Array(vec![Value::from(1), Value::from(2), Value::from(3), Value::from(4), Value::from(5)]);
    let result = execute_action("array_to_string", conv_inputs(vec![("array", numbers), ("separator", Value::from("--"))])).unwrap();
    assert_eq!(conv_output(&result), Some(Value::from("1--2--3--4--5")));
}

#[test]
fn test_object_to_string_converter() {
    let person = conv_obj(vec![("name", Value::from("John")), ("age", Value::from(30))]);
    let result = execute_action("object_to_string", conv_inputs(vec![("object", person.clone()), ("pretty", Value::from(false))])).unwrap();
    let output = conv_output(&result).unwrap();
    let output = output.as_str().unwrap();
    assert!(output.contains("John"));
    assert!(output.contains("30"));
    assert!(!output.contains("\n"));

    let result = execute_action("object_to_string", conv_inputs(vec![("object", person), ("pretty", Value::from(true))])).unwrap();
    let output = conv_output(&result).unwrap();
    let output = output.as_str().unwrap();
    assert!(output.contains("John"));
    assert!(output.contains("30"));
    assert!(output.contains("\n"));

    let details = conv_obj(vec![("age", Value::from(28)), ("active", Value::from(true))]);
    let nested = conv_obj(vec![("person", conv_obj(vec![("name", Value::from("Alice")), ("details", details)]))]);
    let result = execute_action("object_to_string", conv_inputs(vec![("object", nested)])).unwrap();
    let output = conv_output(&result).unwrap();
    let output = output.as_str().unwrap();
    assert!(output.contains("Alice"));
    assert!(output.contains("28"));
}

#[test]
fn test_register_converter_plugin() {
    let mut registry = PluginRegistry::new();
    let result = converter_plugin::register_converter_plugin(&mut registry);
    assert!(result.is_ok());

    let plugins = registry.find_plugins("converter");
    assert!(!plugins.is_empty(), "Converter plugin should be registered");

    let plugin = &plugins[0];

    assert!(plugin.actions.contains_key("number_to_string"));
    assert!(plugin.actions.contains_key("boolean_to_string"));
    assert!(plugin.actions.contains_key("array_to_string"));
    assert!(plugin.actions.contains_key("object_to_string"));

    let number_action = plugin.actions.get("number_to_string").unwrap();
    assert_eq!(number_action.inputs.len(), 2);
    assert_eq!(number_action.inputs[0].param_type, ParameterType::Number);

    let boolean_action = plugin.actions.get("boolean_to_string").unwrap();
    assert_eq!(boolean_action.inputs.len(), 2);
    assert_eq!(boolean_action.inputs[0].param_type, ParameterType::Boolean);
}

#[test]
fn test_converter_node_check() {
    assert!(converter_plugin::is_converter_node("converter", "number_to_string"));
    assert!(converter_plugin::is_converter_node("converter", "boolean_to_string"));
    assert!(converter_plugin::is_converter_node("converter", "array_to_string"));
    assert!(converter_plugin::is_converter_node("converter", "object_to_string"));
    assert!(!converter_plugin::is_converter_node("converter", "unknown_action"));
    assert!(!converter_plugin::is_converter_node("system", "number_to_string"));
}

#[test]
fn registering_the_converter_twice_is_refused() {
    let mut registry = PluginRegistry::new();
    assert!(converter_plugin::register_converter_plugin(&mut registry).is_ok());
    let again = converter_plugin::register_converter_plugin(&mut registry);
    assert_eq!(again.err(), Some("Plugin with ID converter:converter already exists".to_string()));
    assert_eq!(registry.find_plugins("converter").len(), 1);
}

#[test]
fn unknown_converter_action_is_refused() {
    let r = execute_action("frobnicate", StrMap::new());
    assert_eq!(r.err(), Some("Unknown converter action frobnicate".to_string()));
}
