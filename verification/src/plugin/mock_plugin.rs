//! A plugin that simulates a real one, used for testing and demonstrations.
use vstd::prelude::*;
use crate::shell_core::plugin::{ShellPlugin, outcome};
use crate::shell_core::types::{PluginConfig, StringMap, VarsView, vars_insert};
use crate::text::{int_decimal, string_of, push_i64};

verus! {

/// The message a failed initialization reports.
pub const NO_SHELL_MESSAGE: &'static str = "Configuration must specify a shell.";

/// The prefix of the message a failed command reports.
pub const FAILED_PREFIX: &'static str = "Command failed with code ";

/// A mock plugin: it records the current directory on each prompt and fails
/// the post-execute hook for non-zero exit codes.
#[derive(Default)]
pub struct MockPlugin;

/// The variables after the mock pre-prompt hook.
pub open spec fn mock_pre_prompt(before: VarsView) -> VarsView {
    vars_insert(vars_insert(before, "CURRENT_DIR"@, "test/path"@), "MOCK_PLUGIN_ACTIVE"@, "true"@)
}

impl ShellPlugin for MockPlugin {
    open spec fn plugin_name() -> Seq<char> {
        "mock_plugin"@
    }

    open spec fn initialize_spec(shell_name: Seq<char>, settings: VarsView, result: Result<(), Seq<char>>) -> bool {
        result == if shell_name.len() == 0 {
            Err(NO_SHELL_MESSAGE@)
        } else {
            Ok(())
        }
    }

    open spec fn pre_prompt_spec(before: VarsView, after: VarsView, result: Result<(), Seq<char>>) -> bool {
        after == mock_pre_prompt(before) && result == Ok::<(), Seq<char>>(())
    }

    open spec fn post_execute_spec(command: Seq<char>, exit_code: i32, result: Result<(), Seq<char>>) -> bool {
        result == if exit_code != 0 {
            Err(FAILED_PREFIX@ + int_decimal(exit_code as int))
        } else {
            Ok(())
        }
    }

    fn name() -> (r: &'static str) {
        "mock_plugin"
    }

    fn initialize(config: &PluginConfig) -> (r: Result<(), String>) {
        if config.shell_name.as_str().is_empty() {
            return Err(string_of(NO_SHELL_MESSAGE));
        }
        Ok(())
    }

    fn pre_prompt_hook(context: &mut StringMap) -> (r: Result<(), String>) {
        context.insert(string_of("CURRENT_DIR"), string_of("test/path"));
        context.insert(string_of("MOCK_PLUGIN_ACTIVE"), string_of("true"));
        Ok(())
    }

    fn post_execute_hook(_command: &str, exit_code: i32) -> (r: Result<(), String>) {
        if exit_code != 0 {
            let mut msg = string_of(FAILED_PREFIX);
            push_i64(&mut msg, exit_code as i64);
            return Err(msg);
        }
        Ok(())
    }
}

} // verus!
