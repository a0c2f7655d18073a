//! Moirai: a workflow engine whose plugins, workflow definitions and
//! execution decisions are modelled as plain values with checked contracts.

pub mod text;
pub mod strmap;
pub mod json;
pub mod json_text;
pub mod models;
pub mod plugin;
pub mod system_plugin;
pub mod converter_plugin;
pub mod specs;
pub mod config_loader;
pub mod plugin_manager;
pub mod workflow_validator;
pub mod engine;
pub mod graph;
pub mod drive;
