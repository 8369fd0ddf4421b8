//! Bash shell integration layer.
//!
//! Hooks compatible with Bash's `PROMPT_COMMAND` and `DEBUG` trap, capturing
//! context before prompts and after command execution.
use vstd::prelude::*;
use crate::shell_core::plugin::{ShellPlugin, outcome};
use crate::shell_core::types::{StringMap, vars_insert};
use crate::text::{int_decimal, string_of, i32_to_string};

verus! {

/// Simulates Bash's PROMPT_COMMAND behaviour: runs the plugin's pre-prompt hook.
pub fn precmd<P: ShellPlugin>(context: &mut StringMap) -> (r: Result<(), String>)
    ensures
        P::pre_prompt_spec(old(context)@, final(context)@, outcome(r)),
{
    P::pre_prompt_hook(context)
}

/// Simulates Bash's DEBUG trap: records the command and the exit code in the
/// context, then runs the plugin's post-execute hook.
pub fn preexec<P: ShellPlugin>(command: &str, exit_code: i32, context: &mut StringMap) -> (r: Result<(), String>)
    ensures
        final(context)@ == vars_insert(
            vars_insert(old(context)@, "LAST_COMMAND"@, command@),
            "EXIT_CODE"@,
            int_decimal(exit_code as int),
        ),
        P::post_execute_spec(command@, exit_code, outcome(r)),
{
    context.insert(string_of("LAST_COMMAND"), string_of(command));
    context.insert(string_of("EXIT_CODE"), i32_to_string(exit_code));
    P::post_execute_hook(command, exit_code)
}

/// Text of the .bashrc snippet before the first binary path.
pub const BASHRC_HEAD: &'static str = "# Shally Framework - Bash Integration\n# Add this to your ~/.bashrc to enable Shally hooks\n\n# Pre-prompt hook (runs before each prompt)\nshally_precmd() {\n    ";

/// Text of the .bashrc snippet between the two binary paths.
pub const BASHRC_MIDDLE: &'static str = " --bash-hook precmd\n}\n\n# Pre-execution hook (runs before each command)\nshally_preexec() {\n    ";

/// Text of the .bashrc snippet after the second binary path.
pub const BASHRC_TAIL: &'static str = " --bash-hook preexec \"$BASH_COMMAND\"\n}\n\n# Store the previous PROMPT_COMMAND if it exists\nif [ -n \"$PROMPT_COMMAND\" ]; then\n    shally_old_precmd=\"$PROMPT_COMMAND\"\nfi\n\n# Set up PROMPT_COMMAND to run our hook\nPROMPT_COMMAND=\"shally_precmd\"\n\n# Set up DEBUG trap for pre-execution\ntrap 'shally_preexec' DEBUG\n";

/// Generates Bash hook installation code for .bashrc, calling `binary_path`
/// from the pre-prompt and pre-execution hooks.
pub fn generate_bashrc_snippet(binary_path: &str) -> (r: String)
    ensures
        r@ == BASHRC_HEAD@ + binary_path@ + BASHRC_MIDDLE@ + binary_path@ + BASHRC_TAIL@,
{
    let mut r = string_of(BASHRC_HEAD);
    r.append(binary_path);
    r.append(BASHRC_MIDDLE);
    r.append(binary_path);
    r.append(BASHRC_TAIL);
    r
}

} // verus!
