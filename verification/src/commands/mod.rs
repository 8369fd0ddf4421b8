//! Command handlers: what each command line asks the binary to do.
pub mod install;
pub mod context;
pub mod ai_config;
pub mod history;

pub use install::handle_install_commands;
pub use context::handle_export_context_command;
pub use ai_config::handle_ai_config_command;
pub use history::handle_history_commands;
