//! The system `string` primitive.

use vstd::prelude::*;
use crate::json::{JsonMap, JsonValue, JsonView, output_map, single_output, text_form};
use crate::models::ParameterType;
use crate::plugin::{ActionDefinition, action, action_is, param, param_is};
use super::input_or;

verus! {

/// The `string` action as the system plugin defines it: input `value`, output `output`, both strings.
pub open spec fn is_definition(r: ActionDefinition) -> bool {
    &&& action_is(r, "string"@, "Create or manipulate a string value"@, "internal:string"@)
    &&& r.inputs@.len() == 1
    &&& param_is(r.inputs@[0], "value"@, "Value"@, ParameterType::String, "String value to output"@, true, false, Some(JsonView::Str(""@)))
    &&& r.outputs@.len() == 1
    &&& param_is(r.outputs@[0], "output"@, "Output"@, ParameterType::String, "The resulting string value"@, true, false, None)
}

/// Definition of the `string` action: input `value`, output `output`, both strings.
pub fn definition() -> (r: ActionDefinition)
    ensures
        is_definition(r),
{
    let mut inputs = Vec::new();
    inputs.push(param("value", "Value", ParameterType::String, "String value to output", true, false, Some(JsonValue::String(String::from_str("")))));
    let mut outputs = Vec::new();
    outputs.push(param("output", "Output", ParameterType::String, "The resulting string value", true, false, None));
    action("string", "Create or manipulate a string value", "internal:string", inputs, outputs)
}

/// Runs the `string` action: `output` is the text form of `value` (default `""`).
pub fn execute(inputs: JsonMap) -> (r: Result<JsonMap, String>)
    requires
        inputs.wf(),
    ensures
        r matches Ok(m) && m.wf() && single_output(m@, JsonView::Str(text_form(input_or(inputs@, "value"@, JsonView::Str(""@))))),
{
    let mut inputs = inputs;
    let text = match inputs.remove("value") {
        Some(v) => v.text_form(),
        None => String::from_str(""),
    };
    Ok(output_map(JsonValue::String(text)))
}

/// What the `string` node outputs for the inputs `m`: without a `value`,
/// the empty text; otherwise the value's text form (a string as it is).
pub proof fn law_string_output(m: Map<Seq<char>, JsonValue>)
    ensures
        !m.dom().contains("value"@) ==> text_form(input_or(m, "value"@, JsonView::Str(""@))) == ""@,
        m.dom().contains("value"@) ==> text_form(input_or(m, "value"@, JsonView::Str(""@))) == text_form(m["value"@]@),
        m.dom().contains("value"@) && m["value"@]@ is Str ==> text_form(input_or(m, "value"@, JsonView::Str(""@))) == m["value"@]@->Str_0,
{
}

} // verus!
