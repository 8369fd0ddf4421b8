use vstd::prelude::*;
use crate::shell_core::types::ShellContext;
use crate::text::{int_decimal, opt_view, string_of, push_i64};

verus! {

/// Builder for contextual prompts sent to the AI.
pub struct PromptBuilder;

/// The help prompt for a shell state: the last command (or that it is
/// unknown), its output, a non-zero exit code, the directory, the shell and
/// the instructions.
pub open spec fn help_prompt(
    last_command: Option<Seq<char>>,
    last_output: Option<Seq<char>>,
    exit_code: Option<i32>,
    cwd: Seq<char>,
    shell: Seq<char>,
) -> Seq<char> {
    "You are a helpful shell assistant. "@ + match last_command {
        Some(c) => "The user ran: `"@ + c + "`. "@,
        None => "The user's last command is unknown. "@,
    } + match last_output {
        Some(o) => "Output/Error: "@ + o + ". "@,
        None => Seq::empty(),
    } + match exit_code {
        Some(c) => if c != 0 {
            "Exit code: "@ + int_decimal(c as int) + " (error). "@
        } else {
            Seq::empty()
        },
        None => Seq::empty(),
    } + "Current directory: "@ + cwd + ". "@ + "Shell: "@ + shell + ". "@
        + "Please provide a concise fix, explanation, or suggestion. "@
        + "If suggesting a command, format it in markdown code blocks with the shell name."@
}

/// The prompt asking to explain a command before it runs.
pub open spec fn explain_prompt(command: Seq<char>, cwd: Seq<char>) -> Seq<char> {
    "Explain what this command does in simple terms: `"@ + command + "`. Current directory: "@ + cwd
        + ". Warn if the command is potentially dangerous."@
}

/// The prompt asking for help with a command that was not found.
pub open spec fn not_found_prompt(command: Seq<char>, shell: Seq<char>) -> Seq<char> {
    "The command `"@ + command + "` was not found in "@ + shell
        + ". Suggest: 1) How to install it, 2) Alternative commands, 3) Common typos."@
}

impl PromptBuilder {
    /// Build a help prompt based on the shell state.
    pub fn build_help_prompt(ctx: &ShellContext) -> (r: String)
        ensures
            r@ == help_prompt(
                opt_view(ctx.last_command),
                opt_view(ctx.last_output),
                ctx.exit_code,
                ctx.cwd@,
                ctx.shell@,
            ),
    {
        let mut prompt = string_of("You are a helpful shell assistant. ");
        match &ctx.last_command {
            Some(cmd) => {
                prompt.append("The user ran: `");
                prompt.append(cmd.as_str());
                prompt.append("`. ");
            },
            None => {
                prompt.append("The user's last command is unknown. ");
            },
        }
        match &ctx.last_output {
            Some(output) => {
                prompt.append("Output/Error: ");
                prompt.append(output.as_str());
                prompt.append(". ");
            },
            None => {},
        }
        match ctx.exit_code {
            Some(code) => {
                if code != 0 {
                    prompt.append("Exit code: ");
                    push_i64(&mut prompt, code as i64);
                    prompt.append(" (error). ");
                }
            },
            None => {},
        }
        prompt.append("Current directory: ");
        prompt.append(ctx.cwd.as_str());
        prompt.append(". ");
        prompt.append("Shell: ");
        prompt.append(ctx.shell.as_str());
        prompt.append(". ");
        prompt.append("Please provide a concise fix, explanation, or suggestion. ");
        prompt.append("If suggesting a command, format it in markdown code blocks with the shell name.");
        assert(prompt@ =~= help_prompt(
            opt_view(ctx.last_command),
            opt_view(ctx.last_output),
            ctx.exit_code,
            ctx.cwd@,
            ctx.shell@,
        ));
        prompt
    }

    /// Build a prompt for explaining a command before execution.
    pub fn build_explain_prompt(command: &str, cwd: &str) -> (r: String)
        ensures
            r@ == explain_prompt(command@, cwd@),
    {
        let mut r = string_of("Explain what this command does in simple terms: `");
        r.append(command);
        r.append("`. Current directory: ");
        r.append(cwd);
        r.append(". Warn if the command is potentially dangerous.");
        assert(r@ =~= explain_prompt(command@, cwd@));
        r
    }

    /// Build a prompt for suggesting alternatives to an unknown command.
    pub fn build_not_found_prompt(command: &str, shell: &str) -> (r: String)
        ensures
            r@ == not_found_prompt(command@, shell@),
    {
        let mut r = string_of("The command `");
        r.append(command);
        r.append("` was not found in ");
        r.append(shell);
        r.append(". Suggest: 1) How to install it, 2) Alternative commands, 3) Common typos.");
        assert(r@ =~= not_found_prompt(command@, shell@));
        r
    }
}

} // verus!
