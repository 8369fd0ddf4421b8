use vstd::prelude::*;
use crate::plugin::mock_plugin::{MockPlugin, mock_pre_prompt};
use crate::shell_core::plugin::ShellPlugin;
use crate::shell_core::types::{PluginConfig, StringMap, VarsView, vars_insert};
use crate::text::{int_decimal, string_of, str_eq};
use crate::zsh;

verus! {

/// The abstract result of a hook run: the variables it produced, or the
/// complaint about an unknown hook type.
pub open spec fn run_view(r: Result<StringMap, String>) -> Result<VarsView, Seq<char>> {
    match r {
        Ok(m) => Ok(m@),
        Err(e) => Err(e@),
    }
}

/// The command handed to a hook, or the empty command when none was given.
pub open spec fn command_or_empty(command: Option<Seq<char>>) -> Seq<char> {
    match command {
        Some(c) => c,
        None => Seq::empty(),
    }
}

/// What running the zsh hook `hook_type` yields on fresh variables.
pub open spec fn zsh_hook_outcome(hook_type: Seq<char>, command: Option<Seq<char>>) -> Result<VarsView, Seq<char>> {
    if hook_type == "precmd"@ {
        Ok(mock_pre_prompt(Seq::empty()))
    } else if hook_type == "preexec"@ {
        Ok(
            vars_insert(
                vars_insert(Seq::empty(), "LAST_COMMAND"@, command_or_empty(command)),
                "EXIT_CODE"@,
                int_decimal(0),
            ),
        )
    } else {
        Err("Unknown hook type: "@ + hook_type)
    }
}

/// The characters of an optional string slice.
pub open spec fn opt_str(o: Option<&str>) -> Option<Seq<char>> {
    match o {
        Some(s) => Some(s@),
        None => None,
    }
}

/// Runs a zsh hook (`precmd` or `preexec`) with the mock plugin on fresh
/// variables, after initializing the plugin for zsh with the base settings.
pub fn execute_zsh_hook(hook_type: &str, command: Option<&str>, base_config: &PluginConfig) -> (r: Result<StringMap, String>)
    ensures
        run_view(r) == zsh_hook_outcome(hook_type@, opt_str(command)),
{
    let mut context = StringMap::new();
    let config = PluginConfig { shell_name: string_of("zsh"), settings: base_config.settings.duplicate() };
    let _ = MockPlugin::initialize(&config);
    if str_eq(hook_type, "precmd") {
        let _ = zsh::precmd::<MockPlugin>(&mut context);
        Ok(context)
    } else if str_eq(hook_type, "preexec") {
        let cmd = match command {
            Some(c) => c,
            None => "",
        };
        proof {
            reveal_strlit("");
            assert(cmd@ == command_or_empty(opt_str(command)));
        }
        let _ = zsh::preexec::<MockPlugin>(cmd, 0, &mut context);
        Ok(context)
    } else {
        let mut msg = string_of("Unknown hook type: ");
        msg.append(hook_type);
        Err(msg)
    }
}

} // verus!
