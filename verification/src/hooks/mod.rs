//! Running a shell hook from the command line with the mock plugin.
pub mod zsh;
pub mod fish;
pub mod bash;

pub use zsh::execute_zsh_hook;
pub use fish::execute_fish_hook;
pub use bash::execute_bash_hook;
