//! Fish shell integration layer.
//!
//! Hooks compatible with Fish's event system, capturing context before
//! prompts and on unknown commands.
use vstd::prelude::*;
use crate::shell_core::plugin::{ShellPlugin, outcome};
use crate::shell_core::types::{StringMap, vars_insert};
use crate::text::string_of;

verus! {

/// Simulates Fish's fish_prompt event: runs the plugin's pre-prompt hook.
pub fn prompt<P: ShellPlugin>(context: &mut StringMap) -> (r: Result<(), String>)
    ensures
        P::pre_prompt_spec(old(context)@, final(context)@, outcome(r)),
{
    P::pre_prompt_hook(context)
}

/// Simulates Fish's fish_command_not_found event: records the failed command
/// and runs the plugin's post-execute hook with exit code 127.
pub fn command_not_found<P: ShellPlugin>(command: &str, context: &mut StringMap) -> (r: Result<(), String>)
    ensures
        final(context)@ == vars_insert(old(context)@, "FAILED_COMMAND"@, command@),
        P::post_execute_spec(command@, 127, outcome(r)),
{
    context.insert(string_of("FAILED_COMMAND"), string_of(command));
    P::post_execute_hook(command, 127)
}

/// Text of the config.fish snippet before the first binary path.
pub const FISH_HEAD: &'static str = "# ShellAI Framework - Fish Integration\n# Add this to your ~/.config/fish/config.fish to enable ShellAI hooks\n\n# Pre-prompt hook\nfunction shellai_prompt\n    ";

/// Text of the config.fish snippet between the two binary paths.
pub const FISH_MIDDLE: &'static str = " --fish-hook prompt\nend\n\n# Command not found handler\nfunction shellai_command_not_found\n    ";

/// Text of the config.fish snippet after the second binary path.
pub const FISH_TAIL: &'static str = " --fish-hook command_not_found $argv[1]\nend\n\n# Register the prompt hook\nfish_prompt += shellai_prompt\n";

/// Generates Fish hook installation code for config.fish, calling
/// `binary_path` from the prompt and command-not-found handlers.
pub fn generate_config_snippet(binary_path: &str) -> (r: String)
    ensures
        r@ == FISH_HEAD@ + binary_path@ + FISH_MIDDLE@ + binary_path@ + FISH_TAIL@,
{
    let mut r = string_of(FISH_HEAD);
    r.append(binary_path);
    r.append(FISH_MIDDLE);
    r.append(binary_path);
    r.append(FISH_TAIL);
    r
}

} // verus!
