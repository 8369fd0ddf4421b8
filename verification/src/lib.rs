pub mod shell_core;
pub mod text;
pub mod fuzzy;
pub mod ranking;
pub mod plugin;
pub mod zsh;
pub mod fish;
pub mod bash;
pub mod starship;
pub mod errors;
pub mod ai_core;
pub mod clock;
pub mod smart_history;
pub mod history;
pub mod ai;
pub mod hooks;
pub mod cli;
pub mod commands;
pub mod config;
