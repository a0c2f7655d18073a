//! The system `end` node: where a workflow stops.

use vstd::prelude::*;
use crate::json::JsonMap;
use crate::plugin::{ActionDefinition, action, action_is};

verus! {

/// The `end` action as the system plugin defines it: no inputs, no outputs.
pub open spec fn is_definition(r: ActionDefinition) -> bool {
    &&& action_is(r, "end"@, "Workflow end node"@, "internal:end"@)
    &&& r.inputs@.len() == 0
    &&& r.outputs@.len() == 0
}

/// Definition of the `end` action: no inputs, no outputs.
pub fn definition() -> (r: ActionDefinition)
    ensures
        is_definition(r),
{
    action("end", "Workflow end node", "internal:end", Vec::new(), Vec::new())
}

/// Runs the `end` action: its inputs pass through unchanged.
pub fn execute(inputs: JsonMap) -> (r: Result<JsonMap, String>)
    ensures
        r == Ok::<JsonMap, String>(inputs),
{
    Ok(inputs)
}

} // verus!
