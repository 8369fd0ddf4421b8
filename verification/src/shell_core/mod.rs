//! Core module for Shally: base types and the plugin trait.
pub mod types;
pub mod plugin;

pub use types::{PluginConfig, ShellContext, StringMap, CommandResult};
pub use plugin::ShellPlugin;
