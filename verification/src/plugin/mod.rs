//! Plugin implementations; re-exports the core plugin types.
pub mod mock_plugin;

pub use crate::shell_core::{PluginConfig, ShellPlugin, StringMap};
