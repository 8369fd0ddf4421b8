use vstd::prelude::*;
use crate::plugin::mock_plugin::{MockPlugin, mock_pre_prompt};
use crate::shell_core::plugin::ShellPlugin;
use crate::shell_core::types::{PluginConfig, StringMap, VarsView, vars_insert};
use crate::text::{int_decimal, string_of, str_eq};
use crate::bash;
use super::zsh::{run_view, command_or_empty, opt_str};

verus! {

/// What running the bash hook `hook_type` yields on fresh variables.
pub open spec fn bash_hook_outcome(hook_type: Seq<char>, command: Option<Seq<char>>) -> Result<VarsView, Seq<char>> {
    if hook_type == "precmd"@ {
        Ok(mock_pre_prompt(Seq::empty()))
    } else if hook_type == "preexec"@ {
        Ok(
            vars_insert(
                vars_insert(Seq::empty(), "LAST_COMMAND"@, command_or_empty(command)),
                "EXIT_CODE"@,
                int_decimal(0),
            ),
        )
    } else {
        Err("Unknown bash hook type: "@ + hook_type)
    }
}

/// Runs a bash hook (`precmd` or `preexec`) with the mock plugin on fresh
/// variables, after initializing the plugin for bash with the base settings.
pub fn execute_bash_hook(hook_type: &str, command: Option<&str>, base_config: &PluginConfig) -> (r: Result<StringMap, String>)
    ensures
        run_view(r) == bash_hook_outcome(hook_type@, opt_str(command)),
{
    let mut context = StringMap::new();
    let config = PluginConfig { shell_name: string_of("bash"), settings: base_config.settings.duplicate() };
    let _ = MockPlugin::initialize(&config);
    if str_eq(hook_type, "precmd") {
        let _ = bash::precmd::<MockPlugin>(&mut context);
        Ok(context)
    } else if str_eq(hook_type, "preexec") {
        let cmd = match command {
            Some(c) => c,
            None => "",
        };
        proof {
            reveal_strlit("");
            assert(cmd@ == command_or_empty(opt_str(command)));
        }
        let _ = bash::preexec::<MockPlugin>(cmd, 0, &mut context);
        Ok(context)
    } else {
        let mut msg = string_of("Unknown bash hook type: ");
        msg.append(hook_type);
        Err(msg)
    }
}

} // verus!
