//! The system `object` primitive.

use vstd::prelude::*;
use crate::json::{JsonMap, JsonValue, JsonView, output_map, single_output};
use crate::models::ParameterType;
use crate::plugin::{ActionDefinition, action, action_is, param, param_is};
use super::input_or;

verus! {

/// The `object` action as the system plugin defines it: input `value`, output `output`, both objects.
pub open spec fn is_definition(r: ActionDefinition) -> bool {
    &&& action_is(r, "object"@, "Create or manipulate a JSON object"@, "internal:object"@)
    &&& r.inputs@.len() == 1
    &&& param_is(r.inputs@[0], "value"@, "Value"@, ParameterType::Object, "Object value to output"@, true, false, Some(JsonView::Object(Seq::empty())))
    &&& r.outputs@.len() == 1
    &&& param_is(r.outputs@[0], "output"@, "Output"@, ParameterType::Object, "The resulting object value"@, true, false, None)
}

/// Definition of the `object` action: input `value`, output `output`, both objects.
pub fn definition() -> (r: ActionDefinition)
    ensures
        is_definition(r),
{
    let mut inputs = Vec::new();
    let empty = JsonValue::Object(Vec::new());
    assert(empty@ == JsonView::Object(Seq::empty())) by {
        if let JsonView::Object(o) = empty@ {
            assert(o =~= Seq::empty());
        }
    }
    inputs.push(param("value", "Value", ParameterType::Object, "Object value to output", true, false, Some(empty)));
    let mut outputs = Vec::new();
    outputs.push(param("output", "Output", ParameterType::Object, "The resulting object value", true, false, None));
    action("object", "Create or manipulate a JSON object", "internal:object", inputs, outputs)
}

/// The object an `object` node outputs: `value` when it is an object, else the empty object.
pub open spec fn object_result(v: JsonView) -> JsonView {
    match v {
        JsonView::Object(o) => JsonView::Object(o),
        _ => JsonView::Object(Seq::empty()),
    }
}

/// Runs the `object` action: `output` is `value` if it is an object, else `{}`.
pub fn execute(inputs: JsonMap) -> (r: Result<JsonMap, String>)
    requires
        inputs.wf(),
    ensures
        r matches Ok(m) && m.wf() && single_output(m@, object_result(input_or(inputs@, "value"@, JsonView::Object(Seq::empty())))),
{
    let mut inputs = inputs;
    let out = match inputs.remove("value") {
        Some(JsonValue::Object(o)) => JsonValue::Object(o),
        _ => {
            let e = JsonValue::Object(Vec::new());
            assert(e@ == JsonView::Object(Seq::empty())) by {
                if let JsonView::Object(o) = e@ {
                    assert(o =~= Seq::empty());
                }
            }
            e
        },
    };
    Ok(output_map(out))
}

/// What the `object` node outputs for the inputs `m`: its `value` when
/// that is an object, and otherwise (no value, or one of another kind) the
/// empty object.
pub proof fn law_object_output(m: Map<Seq<char>, JsonValue>)
    ensures
        m.dom().contains("value"@) && m["value"@]@ is Object ==> object_result(input_or(m, "value"@, JsonView::Object(Seq::empty()))) == m["value"@]@,
        !(m.dom().contains("value"@) && m["value"@]@ is Object) ==> object_result(input_or(m, "value"@, JsonView::Object(Seq::empty())))
            == JsonView::Object(Seq::empty()),
{
}

} // verus!
