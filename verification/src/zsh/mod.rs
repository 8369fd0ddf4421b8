//! Zsh-specific integration layer.
//!
//! Hooks compatible with Zsh's native hook system, capturing context before
//! prompts and after command execution.
use vstd::prelude::*;
use crate::shell_core::plugin::{ShellPlugin, outcome};
use crate::shell_core::types::{StringMap, VarsView, vars_insert, vars_get, keys_unique, lemma_insert_keeps_keys_unique, lemma_get_after_insert};
use crate::text::{int_decimal, string_of, i32_to_string};

verus! {

/// Simulates Zsh's precmd hook: runs the plugin's pre-prompt hook.
pub fn precmd<P: ShellPlugin>(context: &mut StringMap) -> (r: Result<(), String>)
    ensures
        P::pre_prompt_spec(old(context)@, final(context)@, outcome(r)),
{
    P::pre_prompt_hook(context)
}

/// Simulates Zsh's preexec hook: records the command and the exit code in
/// the context, then runs the plugin's post-execute hook.
pub fn preexec<P: ShellPlugin>(command: &str, exit_code: i32, context: &mut StringMap) -> (r: Result<(), String>)
    ensures
        final(context)@ == vars_insert(
            vars_insert(old(context)@, "LAST_COMMAND"@, command@),
            "EXIT_CODE"@,
            int_decimal(exit_code as int),
        ),
        P::post_execute_spec(command@, exit_code, outcome(r)),
{
    context.insert(string_of("LAST_COMMAND"), string_of(command));
    context.insert(string_of("EXIT_CODE"), i32_to_string(exit_code));
    P::post_execute_hook(command, exit_code)
}

/// After the preexec hook's two insertions, reading the variables back
/// gives the command and the exit code, and every other variable is
/// unchanged.
pub proof fn lemma_preexec_readback(before: VarsView, command: Seq<char>, exit_code: i32, other: Seq<char>)
    requires
        keys_unique(before),
    ensures
        ({
            let after = vars_insert(
                vars_insert(before, "LAST_COMMAND"@, command),
                "EXIT_CODE"@,
                int_decimal(exit_code as int),
            );
            &&& vars_get(after, "LAST_COMMAND"@) == Some(command)
            &&& vars_get(after, "EXIT_CODE"@) == Some(int_decimal(exit_code as int))
            &&& (other != "LAST_COMMAND"@ && other != "EXIT_CODE"@) ==> vars_get(after, other) == vars_get(
                before,
                other,
            )
        }),
{
    let mid = vars_insert(before, "LAST_COMMAND"@, command);
    lemma_insert_keeps_keys_unique(before, "LAST_COMMAND"@, command);
    reveal_strlit("LAST_COMMAND");
    reveal_strlit("EXIT_CODE");
    assert("LAST_COMMAND"@ != "EXIT_CODE"@) by {
        assert("LAST_COMMAND"@.len() != "EXIT_CODE"@.len());
    }
    lemma_get_after_insert(before, "LAST_COMMAND"@, command, other);
    lemma_get_after_insert(mid, "EXIT_CODE"@, int_decimal(exit_code as int), "LAST_COMMAND"@);
    lemma_get_after_insert(mid, "EXIT_CODE"@, int_decimal(exit_code as int), other);
}

/// Text of the .zshrc snippet before the first binary path.
pub const ZSHRC_HEAD: &'static str = "# ShellAI Framework - Zsh Integration\n# Add this to your ~/.zshrc to enable ShellAI hooks\n\n# Load shellai binary on precmd\nprecmd_shellai() {\n    ";

/// Text of the .zshrc snippet between the two binary paths.
pub const ZSHRC_MIDDLE: &'static str = " --hook precmd\n}\n\n# Load shellai binary on preexec\npreexec_shellai() {\n    ";

/// Text of the .zshrc snippet after the second binary path.
pub const ZSHRC_TAIL: &'static str = " --hook preexec \"$1\"\n}\n\nautoload -Uz precmd_functions\nautoload -Uz preexec_functions\n\nprecmd_functions+=(precmd_shellai)\npreexec_functions+=(preexec_shellai)\n";

/// Generates Zsh hook installation code for .zshrc, calling `binary_path`
/// from the precmd and preexec hooks.
pub fn generate_zshrc_snippet(binary_path: &str) -> (r: String)
    ensures
        r@ == ZSHRC_HEAD@ + binary_path@ + ZSHRC_MIDDLE@ + binary_path@ + ZSHRC_TAIL@,
{
    let mut r = string_of(ZSHRC_HEAD);
    r.append(binary_path);
    r.append(ZSHRC_MIDDLE);
    r.append(binary_path);
    r.append(ZSHRC_TAIL);
    r
}

} // verus!
