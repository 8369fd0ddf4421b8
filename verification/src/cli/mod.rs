//! Command-line dispatch of hook runs.
use vstd::prelude::*;
use crate::hooks::zsh::{run_view, zsh_hook_outcome};
use crate::hooks::fish::fish_hook_outcome;
use crate::hooks::bash::bash_hook_outcome;
use crate::hooks::{execute_zsh_hook, execute_fish_hook, execute_bash_hook};
use crate::shell_core::types::{PluginConfig, StringMap, VarsView};
use crate::text::str_eq;

verus! {

/// Argument `i` of the command line, if present.
pub open spec fn arg_at(a: Seq<String>, i: int) -> Option<Seq<char>> {
    if 0 <= i < a.len() {
        Some(a[i]@)
    } else {
        None
    }
}

/// Argument `i` of the command line, if present.
pub fn get_arg(args: &[String], i: usize) -> (r: Option<&str>)
    ensures
        match r {
            Some(s) => arg_at(args@, i as int) == Some(s@),
            None => arg_at(args@, i as int) is None,
        },
{
    if i < args.len() {
        Some(args[i].as_str())
    } else {
        None
    }
}

/// Whether argument `i` is present and equal to `flag`.
pub fn arg_is(args: &[String], i: usize, flag: &str) -> (r: bool)
    ensures
        r == (arg_at(args@, i as int) == Some(flag@)),
{
    match get_arg(args, i) {
        Some(a) => str_eq(a, flag),
        None => false,
    }
}

/// The hook run a command line asks for: `--hook TYPE [CMD]` for zsh,
/// `--fish-hook TYPE [CMD]` for fish and `--bash-hook TYPE [CMD]` for bash.
pub open spec fn hook_dispatch(a: Seq<String>) -> Option<Result<VarsView, Seq<char>>> {
    if a.len() > 2 && a[1]@ == "--hook"@ {
        Some(zsh_hook_outcome(a[2]@, arg_at(a, 3)))
    } else if a.len() > 2 && a[1]@ == "--fish-hook"@ {
        Some(fish_hook_outcome(a[2]@, arg_at(a, 3)))
    } else if a.len() > 2 && a[1]@ == "--bash-hook"@ {
        Some(bash_hook_outcome(a[2]@, arg_at(a, 3)))
    } else {
        None
    }
}

/// The abstract result of an optional hook run.
pub open spec fn dispatch_view(r: Option<Result<StringMap, String>>) -> Option<Result<VarsView, Seq<char>>> {
    match r {
        Some(x) => Some(run_view(x)),
        None => None,
    }
}

/// Handles `--hook`, `--fish-hook` and `--bash-hook`: runs the hook and
/// returns its result, or nothing when the command line asks for none.
pub fn handle_hook_commands(args: &[String], base_config: &PluginConfig) -> (r: Option<Result<StringMap, String>>)
    ensures
        dispatch_view(r) == hook_dispatch(args@),
{
    if args.len() > 2 && arg_is(args, 1, "--hook") {
        return Some(execute_zsh_hook(args[2].as_str(), get_arg(args, 3), base_config));
    }
    if args.len() > 2 && arg_is(args, 1, "--fish-hook") {
        return Some(execute_fish_hook(args[2].as_str(), get_arg(args, 3), base_config));
    }
    if args.len() > 2 && arg_is(args, 1, "--bash-hook") {
        return Some(execute_bash_hook(args[2].as_str(), get_arg(args, 3), base_config));
    }
    None
}

} // verus!
