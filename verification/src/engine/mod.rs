//! The execution engine: its events, errors, job bookkeeping and the
//! dependency structure of jobs.

use vstd::prelude::*;
use crate::config_loader::ConfigError;
use crate::plugin_manager::PluginError;
use crate::workflow_validator::WorkflowError;

pub mod job_manager;
pub mod dependency;
pub mod executor;
pub mod cancels;

verus! {

/// Events the engine emits (engine level and node level).
#[derive(Debug)]
pub enum EngineEvent {
    EngineMessage { level: String, message: String },
    PluginsReloaded,
    WorkflowQueued { workflow_path: String },
    WorkflowStarted { workflow_id: String },
    WorkflowFinished { workflow_id: String, is_success: bool },
    NodeLog { workflow_id: String, node_id: String, level: String, message: String },
    NodeProgress { workflow_id: String, node_id: String, percentage: usize },
    NodeOutput { workflow_id: String, node_id: String },
    NodeError { workflow_id: String, node_id: String, error: String },
}

/// Why the engine could not go on.
#[derive(Debug)]
pub enum EngineError {
    Config(ConfigError),
    Plugin(PluginError),
    Workflow(WorkflowError),
}

} // verus!
