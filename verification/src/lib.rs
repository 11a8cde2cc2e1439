//! Core logic of a desktop streaming client driven by script plugins and a
//! long-running JVM bridge process, stated and proved with Verus.

pub mod text;
pub mod json;
pub mod plugin_runtime;
pub mod table;
pub mod sidecar;
pub mod js_host;
pub mod ids;
pub mod player;
pub mod db;
pub mod commands;
pub mod example_plugin;
