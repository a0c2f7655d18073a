//! The system `boolean` primitive.

use vstd::prelude::*;
use crate::json::{JsonMap, JsonValue, JsonView, NumberView, output_map, single_output, truthy};
use crate::models::ParameterType;
use crate::plugin::{ActionDefinition, action, action_is, param, param_is};
use super::input_or;

verus! {

/// The `boolean` action as the system plugin defines it: input `value`, output `output`, both booleans.
pub open spec fn is_definition(r: ActionDefinition) -> bool {
    &&& action_is(r, "boolean"@, "Create or manipulate a boolean value"@, "internal:boolean"@)
    &&& r.inputs@.len() == 1
    &&& param_is(r.inputs@[0], "value"@, "Value"@, ParameterType::Boolean, "Boolean value to output"@, true, false, Some(JsonView::Bool(false)))
    &&& r.outputs@.len() == 1
    &&& param_is(r.outputs@[0], "output"@, "Output"@, ParameterType::Boolean, "The resulting boolean value"@, true, false, None)
}

/// Definition of the `boolean` action: input `value`, output `output`, both booleans.
pub fn definition() -> (r: ActionDefinition)
    ensures
        is_definition(r),
{
    let mut inputs = Vec::new();
    inputs.push(param("value", "Value", ParameterType::Boolean, "Boolean value to output", true, false, Some(JsonValue::Bool(false))));
    let mut outputs = Vec::new();
    outputs.push(param("output", "Output", ParameterType::Boolean, "The resulting boolean value", true, false, None));
    action("boolean", "Create or manipulate a boolean value", "internal:boolean", inputs, outputs)
}

/// Runs the `boolean` action: `output` says whether `value` (default `false`) counts as true.
pub fn execute(inputs: JsonMap) -> (r: Result<JsonMap, String>)
    requires
        inputs.wf(),
    ensures
        r matches Ok(m) && m.wf() && single_output(m@, JsonView::Bool(truthy(input_or(inputs@, "value"@, JsonView::Bool(false))))),
{
    let mut inputs = inputs;
    let b = match inputs.remove("value") {
        Some(v) => v.is_truthy(),
        None => false,
    };
    Ok(output_map(JsonValue::Bool(b)))
}

/// What the `boolean` node outputs for the inputs `m`: without a `value`,
/// false; a boolean as it is; null false; an integer when it is not zero;
/// a float when its text is not that of zero; a string, an array or an
/// object when it is not empty.
pub proof fn law_boolean_output(m: Map<Seq<char>, JsonValue>)
    ensures
        ({
            let out = truthy(input_or(m, "value"@, JsonView::Bool(false)));
            &&& !m.dom().contains("value"@) ==> !out
            &&& m.dom().contains("value"@) ==> {
                let v = m["value"@]@;
                &&& v is Null ==> !out
                &&& (v matches JsonView::Bool(b) ==> out == b)
                &&& (v matches JsonView::Number(NumberView::PosInt(u)) ==> (out <==> u != 0))
                &&& (v matches JsonView::Number(NumberView::NegInt(i)) ==> (out <==> i != 0))
                &&& (v matches JsonView::Number(NumberView::Float(t)) ==> (out <==> t != "0.0"@ && t != "-0.0"@))
                &&& (v matches JsonView::Str(s) ==> (out <==> s.len() > 0))
                &&& (v matches JsonView::Array(a) ==> (out <==> a.len() > 0))
                &&& (v matches JsonView::Object(o) ==> (out <==> o.len() > 0))
            }
        }),
{
}

} // verus!
