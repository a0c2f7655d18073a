//! The system `null` primitive.

use vstd::prelude::*;
use crate::json::{JsonMap, JsonValue, JsonView, output_map, single_output};
use crate::models::ParameterType;
use crate::plugin::{ActionDefinition, action, action_is, param, param_is};

verus! {

/// The `null` action as the system plugin defines it: no inputs, output `output`.
pub open spec fn is_definition(r: ActionDefinition) -> bool {
    &&& action_is(r, "null"@, "Create a null value"@, "internal:null"@)
    &&& r.inputs@.len() == 0
    &&& r.outputs@.len() == 1
    &&& param_is(r.outputs@[0], "output"@, "Output"@, ParameterType::Object, "A null value"@, true, false, None)
}

/// Definition of the `null` action: no inputs, output `output`.
pub fn definition() -> (r: ActionDefinition)
    ensures
        is_definition(r),
{
    let mut outputs = Vec::new();
    outputs.push(param("output", "Output", ParameterType::Object, "A null value", true, false, None));
    action("null", "Create a null value", "internal:null", Vec::new(), outputs)
}

/// Runs the `null` action: `output` is `null`.
pub fn execute(inputs: JsonMap) -> (r: Result<JsonMap, String>)
    ensures
        r matches Ok(m) && m.wf() && single_output(m@, JsonView::Null),
{
    Ok(output_map(JsonValue::Null))
}

} // verus!
