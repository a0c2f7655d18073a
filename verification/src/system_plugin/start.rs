//! The system `start` node: the entry point of a workflow.

use vstd::prelude::*;
use crate::json::JsonMap;
use crate::plugin::{ActionDefinition, action, action_is};

verus! {

/// The `start` action as the system plugin defines it: no inputs, no outputs.
pub open spec fn is_definition(r: ActionDefinition) -> bool {
    &&& action_is(r, "start"@, "Workflow entrypoint"@, "internal:start"@)
    &&& r.inputs@.len() == 0
    &&& r.outputs@.len() == 0
}

/// Definition of the `start` action: no inputs, no outputs.
pub fn definition() -> (r: ActionDefinition)
    ensures
        is_definition(r),
{
    action("start", "Workflow entrypoint", "internal:start", Vec::new(), Vec::new())
}

/// Runs the `start` action: its inputs pass through unchanged.
pub fn execute(inputs: JsonMap) -> (r: Result<JsonMap, String>)
    ensures
        r == Ok::<JsonMap, String>(inputs),
{
    Ok(inputs)
}

} // verus!
