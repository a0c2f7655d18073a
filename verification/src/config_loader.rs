//! The engine configuration (`moirai.config.toml`).

use vstd::prelude::*;
use crate::strmap::StrMap;

verus! {

/// The engine configuration.
#[derive(Debug)]
pub struct Config {
    pub version: String,
    pub engine: EngineConfig,
    /// Plugin sources by namespace.
    pub plugins: StrMap<PluginSource>,
}

/// Engine settings.
#[derive(Debug)]
pub struct EngineConfig {
    pub engine_version: String,
    pub workflow: Option<String>,
    pub concurrency: Option<usize>,
    pub timeout_seconds: Option<u64>,
}

/// Where a plugin is found: a local path, or a git repository and revision.
#[derive(Debug)]
pub struct PluginSource {
    pub path: Option<String>,
    pub git: Option<String>,
    pub rev: Option<String>,
}

/// Why the configuration could not be loaded.
#[derive(Debug)]
pub enum ConfigError {
    /// The file could not be read.
    Io(String),
    /// The file is no valid configuration.
    Toml(String),
}

} // verus!
