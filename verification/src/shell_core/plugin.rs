//! The plugin trait that every Shally plugin implements.
use vstd::prelude::*;
use crate::shell_core::types::{PluginConfig, ShellContext, StringMap, VarsView};

verus! {

/// The abstract outcome of a hook: success, or failure with a message.
pub open spec fn outcome(r: Result<(), String>) -> Result<(), Seq<char>> {
    match r {
        Ok(()) => Ok(()),
        Err(e) => Err(e@),
    }
}

/// Main trait that all Shally plugins implement.
///
/// Each plugin describes, through the spec functions below, how its hooks
/// behave; the shell integration layers state their own behaviour in terms
/// of these descriptions.
pub trait ShellPlugin {
    /// The plugin's name.
    spec fn plugin_name() -> Seq<char>;

    /// `result` is a possible outcome of initializing with this configuration.
    spec fn initialize_spec(shell_name: Seq<char>, settings: VarsView, result: Result<(), Seq<char>>) -> bool;

    /// The pre-prompt hook may turn the variables `before` into `after`
    /// with outcome `result`.
    spec fn pre_prompt_spec(before: VarsView, after: VarsView, result: Result<(), Seq<char>>) -> bool;

    /// `result` is a possible outcome of the post-execute hook.
    spec fn post_execute_spec(command: Seq<char>, exit_code: i32, result: Result<(), Seq<char>>) -> bool;

    /// Get the plugin name.
    fn name() -> (r: &'static str)
        ensures
            r@ == Self::plugin_name(),
    ;

    /// Called once with the configuration before any hook runs.
    fn initialize(config: &PluginConfig) -> (r: Result<(), String>)
        ensures
            Self::initialize_spec(config.shell_name@, config.settings@, outcome(r)),
    ;

    /// Called before the prompt is displayed; may update the shell variables.
    fn pre_prompt_hook(context: &mut StringMap) -> (r: Result<(), String>)
        ensures
            Self::pre_prompt_spec(old(context)@, final(context)@, outcome(r)),
    ;

    /// Called after a command has executed.
    fn post_execute_hook(command: &str, exit_code: i32) -> (r: Result<(), String>)
        ensures
            Self::post_execute_spec(command@, exit_code, outcome(r)),
    ;

    /// The plugin version.
    fn version() -> (r: &'static str)
        default_ensures
            r@ == "0.1.0"@,
    {
        proof {
            reveal_strlit("0.1.0");
        }
        "0.1.0"
    }

    /// Called before a command is executed; a plugin may return a
    /// replacement for the command.
    fn preexec(context: &ShellContext, command: &str) -> (r: Option<String>)
        default_ensures
            r is None,
    {
        None
    }

    /// Called after a command has executed, with the shell state.
    fn precmd(context: &ShellContext) {
    }

    /// Called when a command was not found; a plugin may suggest another.
    fn handle_not_found(context: &ShellContext, command: &str) -> (r: Option<String>)
        default_ensures
            r is None,
    {
        None
    }

    /// Called when a command failed with `output`; a plugin may suggest a fix.
    fn handle_error(context: &ShellContext, output: &str) -> (r: Option<String>)
        default_ensures
            r is None,
    {
        None
    }
}

} // verus!
