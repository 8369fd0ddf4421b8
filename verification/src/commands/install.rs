use vstd::prelude::*;
use crate::cli::{arg_at, arg_is, get_arg};
use crate::{zsh, fish, bash};

verus! {

/// The binary path an install command names, `shally` by default.
pub open spec fn binary_arg(a: Seq<String>) -> Seq<char> {
    match arg_at(a, 2) {
        Some(p) => p,
        None => "shally"@,
    }
}

/// The snippet an install command line asks for: `--install [PATH]` for
/// zsh, `--fish-install [PATH]` for fish, `--bash-install [PATH]` for bash.
pub open spec fn install_snippet(a: Seq<String>) -> Option<Seq<char>> {
    if a.len() > 1 && a[1]@ == "--install"@ {
        Some(zsh::ZSHRC_HEAD@ + binary_arg(a) + zsh::ZSHRC_MIDDLE@ + binary_arg(a) + zsh::ZSHRC_TAIL@)
    } else if a.len() > 1 && a[1]@ == "--fish-install"@ {
        Some(fish::FISH_HEAD@ + binary_arg(a) + fish::FISH_MIDDLE@ + binary_arg(a) + fish::FISH_TAIL@)
    } else if a.len() > 1 && a[1]@ == "--bash-install"@ {
        Some(bash::BASHRC_HEAD@ + binary_arg(a) + bash::BASHRC_MIDDLE@ + binary_arg(a) + bash::BASHRC_TAIL@)
    } else {
        None
    }
}

/// Handles `--install`, `--fish-install` and `--bash-install`: the snippet
/// to print, or nothing when the command line asks for none.
pub fn handle_install_commands(args: &[String]) -> (r: Option<String>)
    ensures
        match r {
            Some(s) => install_snippet(args@) == Some(s@),
            None => install_snippet(args@) is None,
        },
{
    let path = match get_arg(args, 2) {
        Some(p) => p,
        None => "shally",
    };
    if args.len() > 1 && arg_is(args, 1, "--install") {
        return Some(zsh::generate_zshrc_snippet(path));
    }
    if args.len() > 1 && arg_is(args, 1, "--fish-install") {
        return Some(fish::generate_config_snippet(path));
    }
    if args.len() > 1 && arg_is(args, 1, "--bash-install") {
        return Some(bash::generate_bashrc_snippet(path));
    }
    None
}

} // verus!
