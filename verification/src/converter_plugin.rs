//! The built-in converter plugin: turns numbers, booleans, arrays and
//! objects into text.

use vstd::prelude::*;
use crate::json::{json_wf, lemma_view_kind, JsonMap, JsonNumber, JsonValue, JsonView, NumberView, number_text, output_map, single_output, text_form};
use crate::models::ParameterType;
use crate::plugin::{Plugin, PluginRegistry, ActionDefinition, action, action_is, param, param_is, actions_by_name, action_table};
use crate::system_plugin::input_or;
use crate::text::{str_eq, concat, decimal};

verus! {

/// The `number_to_string` action as the converter plugin defines it.
pub open spec fn is_number_to_string(r: ActionDefinition) -> bool {
    &&& action_is(r, "number_to_string"@, "Convert a number to a string"@, "internal:number_to_string"@)
    &&& r.inputs@.len() == 2
    &&& param_is(r.inputs@[0], "value"@, "Value"@, ParameterType::Number, "The number to convert to string"@, true, false, Some(JsonView::Number(NumberView::PosInt(0))))
    &&& param_is(r.inputs@[1], "format"@, "Format"@, ParameterType::String, "Optional format specifier (not used yet)"@, false, false, None)
    &&& r.outputs@.len() == 1
    &&& param_is(r.outputs@[0], "output"@, "Output"@, ParameterType::String, "The string representation of the number"@, true, false, None)
}

/// The `boolean_to_string` action as the converter plugin defines it.
pub open spec fn is_boolean_to_string(r: ActionDefinition) -> bool {
    &&& action_is(r, "boolean_to_string"@, "Convert a boolean to a string"@, "internal:boolean_to_string"@)
    &&& r.inputs@.len() == 2
    &&& param_is(r.inputs@[0], "value"@, "Value"@, ParameterType::Boolean, "The boolean to convert to string"@, true, false, Some(JsonView::Bool(false)))
    &&& param_is(r.inputs@[1], "format"@, "Format"@, ParameterType::String, "Format: 'true/false' (default), 'yes/no', '1/0', 'on/off'"@, false, false, Some(JsonView::Str("true/false"@)))
    &&& r.outputs@.len() == 1
    &&& param_is(r.outputs@[0], "output"@, "Output"@, ParameterType::String, "The string representation of the boolean"@, true, false, None)
}

/// The `array_to_string` action as the converter plugin defines it.
pub open spec fn is_array_to_string(r: ActionDefinition) -> bool {
    &&& action_is(r, "array_to_string"@, "Convert an array to a string representation"@, "internal:array_to_string"@)
    &&& r.inputs@.len() == 2
    &&& param_is(r.inputs@[0], "array"@, "Array"@, ParameterType::Object, "The array to convert"@, true, false, Some(JsonView::Array(Seq::empty())))
    &&& param_is(r.inputs@[1], "separator"@, "Separator"@, ParameterType::String, "Separator between array elements (default: comma)"@, false, false, Some(JsonView::Str(", "@)))
    &&& r.outputs@.len() == 1
    &&& param_is(r.outputs@[0], "output"@, "Output"@, ParameterType::String, "The string representation of the array"@, true, false, None)
}

/// The `object_to_string` action as the converter plugin defines it.
pub open spec fn is_object_to_string(r: ActionDefinition) -> bool {
    &&& action_is(r, "object_to_string"@, "Convert an object to a string representation"@, "internal:object_to_string"@)
    &&& r.inputs@.len() == 2
    &&& param_is(r.inputs@[0], "object"@, "Object"@, ParameterType::Object, "The object to convert"@, true, false, Some(JsonView::Object(Seq::empty())))
    &&& param_is(r.inputs@[1], "pretty"@, "Pretty Print"@, ParameterType::Boolean, "Whether to format the output with indentation (default: false)"@, false, false, Some(JsonView::Bool(false)))
    &&& r.outputs@.len() == 1
    &&& param_is(r.outputs@[0], "output"@, "Output"@, ParameterType::String, "The string representation of the object"@, true, false, None)
}

fn empty_array() -> (r: JsonValue)
    ensures
        r@ == JsonView::Array(Seq::empty()),
        r matches JsonValue::Array(a) && a@.len() == 0,
{
    let e = JsonValue::Array(Vec::new());
    assert(e@ == JsonView::Array(Seq::empty())) by {
        if let JsonView::Array(a) = e@ {
            assert(a =~= Seq::empty());
        }
    }
    e
}

fn empty_object() -> (r: JsonValue)
    ensures
        r@ == JsonView::Object(Seq::empty()),
        r matches JsonValue::Object(o) && o@.len() == 0,
{
    let e = JsonValue::Object(Vec::new());
    assert(e@ == JsonView::Object(Seq::empty())) by {
        if let JsonView::Object(o) = e@ {
            assert(o =~= Seq::empty());
        }
    }
    e
}

fn number_to_string_definition() -> (r: ActionDefinition)
    ensures
        is_number_to_string(r),
{
    let mut inputs = Vec::new();
    inputs.push(param("value", "Value", ParameterType::Number, "The number to convert to string", true, false, Some(JsonValue::Number(JsonNumber::PosInt(0)))));
    inputs.push(param("format", "Format", ParameterType::String, "Optional format specifier (not used yet)", false, false, None));
    let mut outputs = Vec::new();
    outputs.push(param("output", "Output", ParameterType::String, "The string representation of the number", true, false, None));
    action("number_to_string", "Convert a number to a string", "internal:number_to_string", inputs, outputs)
}

fn boolean_to_string_definition() -> (r: ActionDefinition)
    ensures
        is_boolean_to_string(r),
{
    let mut inputs = Vec::new();
    inputs.push(param("value", "Value", ParameterType::Boolean, "The boolean to convert to string", true, false, Some(JsonValue::Bool(false))));
    inputs.push(param("format", "Format", ParameterType::String, "Format: 'true/false' (default), 'yes/no', '1/0', 'on/off'", false, false, Some(JsonValue::String(String::from_str("true/false")))));
    let mut outputs = Vec::new();
    outputs.push(param("output", "Output", ParameterType::String, "The string representation of the boolean", true, false, None));
    action("boolean_to_string", "Convert a boolean to a string", "internal:boolean_to_string", inputs, outputs)
}

fn array_to_string_definition() -> (r: ActionDefinition)
    ensures
        is_array_to_string(r),
{
    let mut inputs = Vec::new();
    inputs.push(param("array", "Array", ParameterType::Object, "The array to convert", true, false, Some(empty_array())));
    inputs.push(param("separator", "Separator", ParameterType::String, "Separator between array elements (default: comma)", false, false, Some(JsonValue::String(String::from_str(", ")))));
    let mut outputs = Vec::new();
    outputs.push(param("output", "Output", ParameterType::String, "The string representation of the array", true, false, None));
    action("array_to_string", "Convert an array to a string representation", "internal:array_to_string", inputs, outputs)
}

fn object_to_string_definition() -> (r: ActionDefinition)
    ensures
        is_object_to_string(r),
{
    let mut inputs = Vec::new();
    inputs.push(param("object", "Object", ParameterType::Object, "The object to convert", true, false, Some(empty_object())));
    inputs.push(param("pretty", "Pretty Print", ParameterType::Boolean, "Whether to format the output with indentation (default: false)", false, false, Some(JsonValue::Bool(false))));
    let mut outputs = Vec::new();
    outputs.push(param("output", "Output", ParameterType::String, "The string representation of the object", true, false, None));
    action("object_to_string", "Convert an object to a string representation", "internal:object_to_string", inputs, outputs)
}

/// The names of the converter plugin's actions.
pub open spec fn converter_actions() -> Set<Seq<char>> {
    set!["number_to_string"@, "boolean_to_string"@, "array_to_string"@, "object_to_string"@]
}

/// The names of the converter plugin's actions are pairwise distinct.
proof fn lemma_converter_names_distinct()
    ensures
        "number_to_string"@ != "boolean_to_string"@,
        "number_to_string"@ != "array_to_string"@,
        "number_to_string"@ != "object_to_string"@,
        "boolean_to_string"@ != "array_to_string"@,
        "boolean_to_string"@ != "object_to_string"@,
        "array_to_string"@ != "object_to_string"@,
{
    reveal_strlit("number_to_string");
    reveal_strlit("boolean_to_string");
    reveal_strlit("array_to_string");
    reveal_strlit("object_to_string");
    assert("number_to_string"@[0] == 'n');
    assert("boolean_to_string"@[0] == 'b');
    assert("array_to_string"@[0] == 'a');
    assert("object_to_string"@[0] == 'o');
}

/// Registers the converter plugin (`converter:converter`, version `1.0.0`,
/// run in-process) with its four actions.
pub fn register_converter_plugin(registry: &mut PluginRegistry) -> (r: Result<(), String>)
    requires
        old(registry).wf(),
    ensures
        final(registry).wf(),
        final(registry).source_list() == old(registry).source_list(),
        old(registry).by_id().dom().contains("converter:converter"@) ==> {
            &&& r matches Err(m) && m@ == "Plugin with ID "@ + "converter:converter"@ + " already exists"@
            &&& final(registry).by_id() == old(registry).by_id()
            &&& final(registry).by_name() == old(registry).by_name()
        },
        !old(registry).by_id().dom().contains("converter:converter"@) ==> {
            &&& r is Ok
            &&& final(registry).by_id().dom() == old(registry).by_id().dom().insert("converter:converter"@)
            &&& final(registry).by_name() == old(registry).by_name().insert(
                "converter"@,
                old(registry).ids_named("converter"@).push("converter:converter"@),
            )
            &&& forall|k: Seq<char>| k != "converter:converter"@ && old(registry).by_id().dom().contains(k) ==> final(registry).by_id()[k] == old(registry).by_id()[k]
            &&& ({
                let p = final(registry).by_id()["converter:converter"@];
                &&& p.id@ == "converter:converter"@
                &&& p.name@ == "converter"@
                &&& p.version@ == "1.0.0"@
                &&& p.runtime@ == "internal"@
                &&& p.path@ == "."@
                &&& p.actions.wf()
                &&& p.actions@.dom() =~= converter_actions()
                &&& is_number_to_string(p.actions@["number_to_string"@])
                &&& is_boolean_to_string(p.actions@["boolean_to_string"@])
                &&& is_array_to_string(p.actions@["array_to_string"@])
                &&& is_object_to_string(p.actions@["object_to_string"@])
            })
        },
{
    let mut defs: Vec<ActionDefinition> = Vec::new();
    defs.push(number_to_string_definition());
    defs.push(boolean_to_string_definition());
    defs.push(array_to_string_definition());
    defs.push(object_to_string_definition());
    let ghost d = defs@;
    let actions = actions_by_name(defs);
    proof {
        lemma_converter_names_distinct();
        assert(d.len() == 4);
        assert(d.take(0) =~= Seq::<ActionDefinition>::empty());
        assert(d.take(1).drop_last() =~= d.take(0));
        assert(d.take(2).drop_last() =~= d.take(1));
        assert(d.take(3).drop_last() =~= d.take(2));
        assert(d.drop_last() =~= d.take(3));
        assert(action_table(d.take(1)) == action_table(d.take(0)).insert(d[0].name@, d[0]));
        assert(action_table(d.take(2)) == action_table(d.take(1)).insert(d[1].name@, d[1]));
        assert(action_table(d.take(3)) == action_table(d.take(2)).insert(d[2].name@, d[2]));
        assert(action_table(d) == action_table(d.take(3)).insert(d[3].name@, d[3]));
    }
    let plugin = Plugin {
        id: String::from_str("converter:converter"),
        name: String::from_str("converter"),
        version: String::from_str("1.0.0"),
        runtime: String::from_str("internal"),
        path: String::from_str("."),
        actions,
    };
    registry.register_plugin(plugin)
}

/// Items of a list joined by a separator.
pub open spec fn join_texts(parts: Seq<Seq<char>>, sep: Seq<char>) -> Seq<char>
    decreases parts.len(),
{
    if parts.len() == 0 {
        Seq::empty()
    } else if parts.len() == 1 {
        parts[0]
    } else {
        join_texts(parts.drop_last(), sep) + sep + parts.last()
    }
}

/// The text an array's elements become: each in its text form, joined by `sep`.
pub open spec fn array_text(a: Seq<JsonView>, sep: Seq<char>) -> Seq<char> {
    join_texts(a.map_values(|e: JsonView| text_form(e)), sep)
}

/// The text for a boolean in one of the formats `yes/no`, `1/0`, `on/off`
/// (any other format gives `true`/`false`).
pub open spec fn boolean_text(b: bool, format: Seq<char>) -> Seq<char> {
    if format == "yes/no"@ {
        if b { "yes"@ } else { "no"@ }
    } else if format == "1/0"@ {
        if b { "1"@ } else { "0"@ }
    } else if format == "on/off"@ {
        if b { "on"@ } else { "off"@ }
    } else {
        if b { "true"@ } else { "false"@ }
    }
}

/// The text input `k`, or `d` when it is missing or no string.
pub open spec fn text_input(m: Map<Seq<char>, JsonValue>, k: Seq<char>, d: Seq<char>) -> Seq<char> {
    if m.dom().contains(k) && m[k]@ is Str {
        m[k]@->Str_0
    } else {
        d
    }
}

/// The boolean input `k`, false when it is missing or no boolean.
pub open spec fn flag_input(m: Map<Seq<char>, JsonValue>, k: Seq<char>) -> bool {
    m.dom().contains(k) && m[k]@ is Bool && m[k]@->Bool_0
}

/// What `number_to_string` outputs for `value`.
pub open spec fn number_to_string_text(v: JsonView) -> Seq<char> {
    match v {
        JsonView::Number(n) => number_text(n),
        _ => "0"@,
    }
}

/// What `boolean_to_string` outputs for `value` in `format`.
pub open spec fn boolean_to_string_text(v: JsonView, format: Seq<char>) -> Seq<char> {
    match v {
        JsonView::Bool(b) => boolean_text(b, format),
        _ => "false"@,
    }
}

/// What `array_to_string` outputs for `array` with `sep`.
pub open spec fn array_to_string_text(v: JsonView, sep: Seq<char>) -> Seq<char> {
    match v {
        JsonView::Array(a) => array_text(a, sep),
        _ => "[not an array]"@,
    }
}

/// The text that `object_to_string` outputs for `object`: the rendering of
/// the object by `render` (pretty or compact), or a placeholder for a non-object.
pub open spec fn object_to_string_result<R: Fn(&JsonValue, bool) -> String>(
    v: JsonValue,
    pretty: bool,
    render: R,
    out: Seq<char>,
) -> bool {
    match v {
        JsonValue::Object(_) => exists|s: String| call_ensures(render, (&v, pretty), s) && out == s@,
        _ => out == "{not an object}"@,
    }
}

/// `out` is the text that `render` gives for the empty object.
pub open spec fn renders_empty<R: Fn(&JsonValue, bool) -> String>(render: R, pretty: bool, out: JsonView) -> bool {
    exists|v: JsonValue, s: String| #![trigger call_ensures(render, (&v, pretty), s)]
        v@ == JsonView::Object(Seq::empty()) && call_ensures(render, (&v, pretty), s) && out == JsonView::Str(s@)
}

fn join_values(elements: &Vec<JsonValue>, sep: &str) -> (r: String)
    ensures
        r@ == join_texts(elements@.map_values(|e: JsonValue| text_form(e@)), sep@),
{
    let ghost texts = elements@.map_values(|e: JsonValue| text_form(e@));
    let mut out = String::new();
    let mut i: usize = 0;
    while i < elements.len()
        invariant
            i <= elements@.len(),
            texts == elements@.map_values(|e: JsonValue| text_form(e@)),
            out@ == join_texts(texts.take(i as int), sep@),
        decreases elements@.len() - i,
    {
        let t = elements[i].text_form();
        assert(texts.take(i + 1).drop_last() =~= texts.take(i as int));
        if i == 0 {
            out = t;
            assert(texts.take(1) =~= seq![texts[0]]);
        } else {
            out.append(sep);
            out.append(t.as_str());
        }
        i = i + 1;
    }
    assert(texts.take(elements@.len() as int) =~= texts);
    out
}

/// Runs action `action` of the converter plugin on `inputs`; an action the
/// plugin does not have is an error. Every number among the inputs is well
/// formed, as `serde_json` makes them. Rendering an object as JSON text is left
/// to `render`, which is told whether to indent.
pub fn execute_converter_action<R: Fn(&JsonValue, bool) -> String>(action: &str, inputs: JsonMap, render: &R) -> (r: Result<JsonMap, String>)
    requires
        inputs.wf(),
        forall|k: Seq<char>| inputs@.dom().contains(k) ==> json_wf(#[trigger] inputs@[k]@),
        forall|v: &JsonValue, p: bool| render.requires((v, p)),
    ensures
        action@ == "number_to_string"@ ==> (r matches Ok(m) && m.wf() && single_output(
            m@,
            JsonView::Str(number_to_string_text(input_or(inputs@, "value"@, JsonView::Number(NumberView::PosInt(0))))),
        )),
        action@ == "boolean_to_string"@ ==> (r matches Ok(m) && m.wf() && single_output(
            m@,
            JsonView::Str(boolean_to_string_text(input_or(inputs@, "value"@, JsonView::Bool(false)), text_input(inputs@, "format"@, "true/false"@))),
        )),
        action@ == "array_to_string"@ ==> (r matches Ok(m) && m.wf() && single_output(
            m@,
            JsonView::Str(array_to_string_text(input_or(inputs@, "array"@, JsonView::Array(Seq::empty())), text_input(inputs@, "separator"@, ", "@))),
        )),
        action@ == "object_to_string"@ ==> (r matches Ok(m) && m.wf() && m@.dom() =~= Set::empty().insert("output"@)
            && m@["output"@]@ is Str && (inputs@.dom().contains("object"@) ==> object_to_string_result(
            inputs@["object"@],
            flag_input(inputs@, "pretty"@),
            *render,
            m@["output"@]@->Str_0,
        )) && (!inputs@.dom().contains("object"@) ==> renders_empty(*render, flag_input(inputs@, "pretty"@), m@["output"@]@))),
        !converter_actions().contains(action@) ==> (r matches Err(m) && m@ == "Unknown converter action "@ + action@),
{
    proof {
        lemma_converter_names_distinct();
    }
    let mut inputs = inputs;
    if str_eq(action, "number_to_string") {
        let text = match inputs.get("value") {
            Some(JsonValue::Number(n)) => n.text(),
            Some(other) => {
                proof {
                    lemma_view_kind(*other);
                }
                String::from_str("0")
            },
            None => {
                proof {
                    reveal_strlit("0");
                    assert(decimal(0) =~= "0"@);
                }
                String::from_str("0")
            },
        };
        Ok(output_map(JsonValue::String(text)))
    } else if str_eq(action, "boolean_to_string") {
        let format = match inputs.get("format") {
            Some(JsonValue::String(f)) => f.clone(),
            Some(other) => {
                proof {
                    lemma_view_kind(*other);
                }
                String::from_str("true/false")
            },
            None => String::from_str("true/false"),
        };
        let f = format.as_str();
        let b = match inputs.get("value") {
            Some(JsonValue::Bool(b)) => Some(*b),
            Some(other) => {
                proof {
                    lemma_view_kind(*other);
                }
                None
            },
            None => Some(false),
        };
        let text = match b {
            Some(b) => {
                if str_eq(f, "yes/no") {
                    if b { String::from_str("yes") } else { String::from_str("no") }
                } else if str_eq(f, "1/0") {
                    if b { String::from_str("1") } else { String::from_str("0") }
                } else if str_eq(f, "on/off") {
                    if b { String::from_str("on") } else { String::from_str("off") }
                } else {
                    if b { String::from_str("true") } else { String::from_str("false") }
                }
            },
            None => String::from_str("false"),
        };
        Ok(output_map(JsonValue::String(text)))
    } else if str_eq(action, "array_to_string") {
        let sep = match inputs.get("separator") {
            Some(JsonValue::String(s)) => s.clone(),
            _ => String::from_str(", "),
        };
        let text = match inputs.get("array") {
            Some(JsonValue::Array(elements)) => {
                let t = join_values(elements, sep.as_str());
                proof {
                    if let JsonView::Array(a) = inputs@["array"@]@ {
                        assert(a.map_values(|e: JsonView| text_form(e)) =~= elements@.map_values(|e: JsonValue| text_form(e@)));
                    }
                }
                t
            },
            Some(_) => String::from_str("[not an array]"),
            None => {
                proof {
                    assert(Seq::<JsonView>::empty().map_values(|e: JsonView| text_form(e)) =~= Seq::<Seq<char>>::empty());
                }
                String::new()
            },
        };
        Ok(output_map(JsonValue::String(text)))
    } else if str_eq(action, "object_to_string") {
        let pretty = match inputs.get("pretty") {
            Some(JsonValue::Bool(b)) => *b,
            Some(other) => {
                proof {
                    lemma_view_kind(*other);
                }
                false
            },
            None => false,
        };
        let object = inputs.remove("object");
        match object {
            Some(v) => {
                proof {
                    lemma_view_kind(v);
                }
                let text = match v {
                    JsonValue::Object(_) => {
                        let s = render(&v, pretty);
                        assert(call_ensures(*render, (&v, pretty), s));
                        s
                    },
                    _ => String::from_str("{not an object}"),
                };
                Ok(output_map(JsonValue::String(text)))
            },
            None => {
                let v = empty_object();
                let s = render(&v, pretty);
                let ghost sv = s@;
                let m = output_map(JsonValue::String(s));
                assert(v@ == JsonView::Object(Seq::empty()) && call_ensures(*render, (&v, flag_input(inputs@, "pretty"@)), s)
                    && m@["output"@]@ == JsonView::Str(s@));
                assert(renders_empty(*render, flag_input(inputs@, "pretty"@), m@["output"@]@));
                Ok(m)
            },
        }
    } else {
        Err(concat("Unknown converter action ", action))
    }
}

/// Checks if plugin/action is a converter node.
pub fn is_converter_node(plugin: &str, action: &str) -> (r: bool)
    ensures
        r == (plugin@ == "converter"@ && converter_actions().contains(action@)),
{
    str_eq(plugin, "converter") && (str_eq(action, "number_to_string") || str_eq(action, "boolean_to_string")
        || str_eq(action, "array_to_string") || str_eq(action, "object_to_string"))
}

/// What `boolean_to_string` writes for a boolean `b` in `format`: for
/// `yes/no`, `1/0` and `on/off`, the word before the slash for true and the
/// word after it for false; for any other format `true` or `false`; and
/// `false` for a value that is no boolean. True and false never read alike.
pub proof fn law_boolean_words(b: bool, format: Seq<char>, v: JsonView)
    ensures
        format == "yes/no"@ ==> boolean_to_string_text(JsonView::Bool(true), format) == "yes"@
            && boolean_to_string_text(JsonView::Bool(false), format) == "no"@,
        format == "1/0"@ ==> boolean_to_string_text(JsonView::Bool(true), format) == "1"@
            && boolean_to_string_text(JsonView::Bool(false), format) == "0"@,
        format == "on/off"@ ==> boolean_to_string_text(JsonView::Bool(true), format) == "on"@
            && boolean_to_string_text(JsonView::Bool(false), format) == "off"@,
        format == "yes/no"@ || format == "1/0"@ || format == "on/off"@ ==> format
            == boolean_to_string_text(JsonView::Bool(true), format) + "/"@ + boolean_to_string_text(JsonView::Bool(false), format),
        format != "yes/no"@ && format != "1/0"@ && format != "on/off"@ ==> boolean_to_string_text(JsonView::Bool(b), format)
            == (if b { "true"@ } else { "false"@ }),
        boolean_to_string_text(JsonView::Bool(true), format) != boolean_to_string_text(JsonView::Bool(false), format),
        !(v is Bool) ==> boolean_to_string_text(v, format) == "false"@,
{
    reveal_strlit("yes/no");
    reveal_strlit("yes");
    reveal_strlit("no");
    reveal_strlit("1/0");
    reveal_strlit("1");
    reveal_strlit("0");
    reveal_strlit("on/off");
    reveal_strlit("on");
    reveal_strlit("off");
    reveal_strlit("true");
    reveal_strlit("false");
    reveal_strlit("/");
    assert("yes/no"@[0] != "on/off"@[0] && "yes/no"@.len() != "1/0"@.len() && "on/off"@.len() != "1/0"@.len());
    assert("yes/no"@ =~= "yes"@ + "/"@ + "no"@);
    assert("1/0"@ =~= "1"@ + "/"@ + "0"@);
    assert("on/off"@ =~= "on"@ + "/"@ + "off"@);
    assert("yes"@ != "no"@ && "1"@ != "0"@ && "on"@ != "off"@ && "true"@ != "false"@) by {
        assert("yes"@.len() != "no"@.len());
        assert("1"@[0] != "0"@[0]);
        assert("on"@.len() != "off"@.len());
        assert("true"@.len() != "false"@.len());
    }
}

/// What `number_to_string` and `array_to_string` write. A number is
/// written as its text form, anything else as `0`. An array is written as
/// its elements' text forms with `sep` between each two: nothing for an
/// empty array, the one text for a single element, and for a longer array
/// the text of all but the last element, `sep`, then the last one's text.
/// A value that is no array gives `[not an array]`.
pub proof fn law_converter_texts(v: JsonView, a: Seq<JsonView>, sep: Seq<char>)
    ensures
        v is Number ==> number_to_string_text(v) == text_form(v),
        !(v is Number) ==> number_to_string_text(v) == "0"@,
        a.len() == 0 ==> array_to_string_text(JsonView::Array(a), sep) == Seq::<char>::empty(),
        a.len() == 1 ==> array_to_string_text(JsonView::Array(a), sep) == text_form(a[0]),
        a.len() >= 2 ==> array_to_string_text(JsonView::Array(a), sep)
            == array_to_string_text(JsonView::Array(a.drop_last()), sep) + sep + text_form(a.last()),
        !(v is Array) ==> array_to_string_text(v, sep) == "[not an array]"@,
{
    let texts = a.map_values(|e: JsonView| text_form(e));
    if a.len() >= 2 {
        assert(texts.drop_last() =~= a.drop_last().map_values(|e: JsonView| text_form(e)));
    }
}

} // verus!
