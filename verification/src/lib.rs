//! Provider-usage monitoring logic: plugin manifests, probe results, provider
//! snapshots, the best-provider recommendation, the plugin sandbox's path rules
//! and the command decisions of the `au` tool.

pub mod text;
pub mod plugin_runtime;
pub mod snapshot;
pub mod recommendation;
pub mod config;
pub mod credential;
pub mod commands;
