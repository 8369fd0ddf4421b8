use vstd::prelude::*;
use crate::plugin::mock_plugin::{MockPlugin, mock_pre_prompt};
use crate::shell_core::plugin::ShellPlugin;
use crate::shell_core::types::{PluginConfig, StringMap, VarsView, vars_insert};
use crate::text::{string_of, str_eq};
use crate::fish;
use super::zsh::{run_view, command_or_empty, opt_str};

verus! {

/// What running the fish hook `hook_type` yields on fresh variables.
pub open spec fn fish_hook_outcome(hook_type: Seq<char>, command: Option<Seq<char>>) -> Result<VarsView, Seq<char>> {
    if hook_type == "prompt"@ {
        Ok(mock_pre_prompt(Seq::empty()))
    } else if hook_type == "command_not_found"@ {
        Ok(vars_insert(Seq::empty(), "FAILED_COMMAND"@, command_or_empty(command)))
    } else {
        Err("Unknown fish hook type: "@ + hook_type)
    }
}

/// Runs a fish hook (`prompt` or `command_not_found`) with the mock plugin
/// on fresh variables, after initializing the plugin for fish with the base
/// settings.
pub fn execute_fish_hook(hook_type: &str, command: Option<&str>, base_config: &PluginConfig) -> (r: Result<StringMap, String>)
    ensures
        run_view(r) == fish_hook_outcome(hook_type@, opt_str(command)),
{
    let mut context = StringMap::new();
    let config = PluginConfig { shell_name: string_of("fish"), settings: base_config.settings.duplicate() };
    let _ = MockPlugin::initialize(&config);
    if str_eq(hook_type, "prompt") {
        let _ = fish::prompt::<MockPlugin>(&mut context);
        Ok(context)
    } else if str_eq(hook_type, "command_not_found") {
        let cmd = match command {
            Some(c) => c,
            None => "",
        };
        proof {
            reveal_strlit("");
            assert(cmd@ == command_or_empty(opt_str(command)));
        }
        let _ = fish::command_not_found::<MockPlugin>(cmd, &mut context);
        Ok(context)
    } else {
        let mut msg = string_of("Unknown fish hook type: ");
        msg.append(hook_type);
        Err(msg)
    }
}

} // verus!
