//! The system `number` primitive.

use vstd::prelude::*;
use crate::json::{JsonMap, JsonNumber, JsonValue, JsonView, NumberView, int_number, output_map};
use crate::models::ParameterType;
use crate::plugin::{ActionDefinition, action, action_is, param, param_is};
use crate::text::{parse_i64, parse_i64_text};

verus! {

/// The `number` action as the system plugin defines it: input `value`, output `output`, both numbers.
pub open spec fn is_definition(r: ActionDefinition) -> bool {
    &&& action_is(r, "number"@, "Create or manipulate a numeric value"@, "internal:number"@)
    &&& r.inputs@.len() == 1
    &&& param_is(r.inputs@[0], "value"@, "Value"@, ParameterType::Number, "Numeric value to output"@, true, false, Some(JsonView::Number(NumberView::PosInt(0))))
    &&& r.outputs@.len() == 1
    &&& param_is(r.outputs@[0], "output"@, "Output"@, ParameterType::Number, "The resulting numeric value"@, true, false, None)
}

/// Definition of the `number` action: input `value`, output `output`, both numbers.
pub fn definition() -> (r: ActionDefinition)
    ensures
        is_definition(r),
{
    let mut inputs = Vec::new();
    inputs.push(param("value", "Value", ParameterType::Number, "Numeric value to output", true, false, Some(JsonValue::Number(JsonNumber::PosInt(0)))));
    let mut outputs = Vec::new();
    outputs.push(param("output", "Output", ParameterType::Number, "The resulting numeric value", true, false, None));
    action("number", "Create or manipulate a numeric value", "internal:number", inputs, outputs)
}

/// The number zero.
pub open spec fn zero() -> JsonView {
    JsonView::Number(NumberView::PosInt(0))
}

/// The number a float reading gives: the number read, or zero when the text
/// is no finite number.
pub open spec fn float_outcome(x: Option<JsonNumber>) -> JsonView {
    match x {
        Some(n) => JsonView::Number(n@),
        None => zero(),
    }
}

/// What a `number` node outputs for `value`: numbers as they are; text read
/// as an `i64`, failing that as a float by `read_float`, failing that zero;
/// `true` as 1 and `false` as 0; anything else zero.
pub open spec fn number_result<F: Fn(&String) -> Option<JsonNumber>>(v: Option<JsonValue>, read_float: F, out: JsonView) -> bool {
    match v {
        Some(JsonValue::Number(n)) => out == JsonView::Number(n@),
        Some(JsonValue::String(s)) => match parse_i64_text(s@) {
            Some(i) => out == JsonView::Number(int_number(i)),
            None => exists|x: Option<JsonNumber>| call_ensures(read_float, (&s,), x) && out == float_outcome(x),
        },
        Some(JsonValue::Bool(b)) => out == JsonView::Number(NumberView::PosInt(if b { 1 } else { 0 })),
        _ => out == zero(),
    }
}

/// Runs the `number` action. Reading a text as a float (`str::parse::<f64>`)
/// is left to `read_float`, which answers `None` for text that is no finite number.
pub fn execute<F: Fn(&String) -> Option<JsonNumber>>(inputs: JsonMap, read_float: &F) -> (r: Result<JsonMap, String>)
    requires
        inputs.wf(),
        forall|s: &String| read_float.requires((s,)),
    ensures
        r matches Ok(m) && m.wf() && m@.dom() =~= Set::empty().insert("output"@) && number_result(
            if inputs@.dom().contains("value"@) { Some(inputs@["value"@]) } else { None },
            *read_float,
            m@["output"@]@,
        ),
{
    let mut inputs = inputs;
    let v = inputs.remove("value");
    let out = match v {
        Some(JsonValue::Number(n)) => JsonValue::Number(n),
        Some(JsonValue::String(s)) => match parse_i64(s.as_str()) {
            Some(i) => JsonValue::Number(JsonNumber::from_i64(i)),
            None => {
                let x = read_float(&s);
                let ghost gx = x;
                let r = match x {
                    Some(n) => JsonValue::Number(n),
                    None => JsonValue::Number(JsonNumber::PosInt(0)),
                };
                assert(call_ensures(*read_float, (&s,), gx) && r@ == float_outcome(gx));
                r
            },
        },
        Some(JsonValue::Bool(b)) => JsonValue::Number(JsonNumber::PosInt(if b { 1 } else { 0 })),
        _ => JsonValue::Number(JsonNumber::PosInt(0)),
    };
    Ok(output_map(out))
}

/// What the `number` node outputs for a `value` that is not text (the
/// reading of text is stated by `number_result` through `read_float`): a
/// number as it is; `true` as 1 and `false` as 0; anything else, or no
/// value, zero. Text that reads as an `i64` gives that integer.
pub proof fn law_number_output<F: Fn(&String) -> Option<JsonNumber>>(v: Option<JsonValue>, read_float: F, out: JsonView)
    requires
        number_result(v, read_float, out),
    ensures
        v is None ==> out == JsonView::Number(NumberView::PosInt(0)),
        v matches Some(JsonValue::Number(n)) ==> out == JsonView::Number(n@),
        v matches Some(JsonValue::Bool(b)) ==> out == JsonView::Number(NumberView::PosInt(if b { 1 } else { 0 })),
        v matches Some(x) ==> (x is Null || x is Array || x is Object ==> out == JsonView::Number(NumberView::PosInt(0))),
        v matches Some(JsonValue::String(s)) ==> (parse_i64_text(s@) matches Some(i) ==> (if i >= 0 {
            out == JsonView::Number(NumberView::PosInt(i as u64))
        } else {
            out == JsonView::Number(NumberView::NegInt(i))
        })),
{
}

} // verus!
