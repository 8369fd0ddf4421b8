use vstd::prelude::*;
use crate::cli::{arg_at, arg_is, get_arg};
use crate::shell_core::types::{PluginConfig, VarsView, vars_get};
use crate::text::{parse_usize, parsed_usize, string_of, str_eq, opt_view};

verus! {

/// What a `--history` command asks for.
#[derive(Debug, Clone)]
pub enum HistoryAction {
    /// Show the last entries.
    Recent(usize),
    /// Show the entries containing the query.
    Search(String),
    /// Remove every entry.
    Clear,
    /// Unknown subcommand: show how to use the command.
    Usage,
}

/// A `--history` command with the history settings it applies to.
#[derive(Debug, Clone)]
pub struct HistoryRequest {
    pub action: HistoryAction,
    pub history_file: Option<String>,
    pub max_entries: usize,
}

/// The history size limit a configuration sets: the `max_history` setting
/// when it parses as a number, otherwise 1000.
pub open spec fn configured_limit(settings: VarsView) -> usize {
    match vars_get(settings, "max_history"@) {
        Some(v) => match parsed_usize(v) {
            Some(n) => n,
            None => 1000,
        },
        None => 1000,
    }
}

/// The history file and size limit a configuration sets.
pub fn history_settings(config: &PluginConfig) -> (r: (Option<String>, usize))
    ensures
        opt_view(r.0) == vars_get(config.settings@, "history_file"@),
        r.1 == configured_limit(config.settings@),
{
    let file = match config.settings.get("history_file") {
        Some(f) => Some(f.clone()),
        None => None,
    };
    let max = match config.settings.get("max_history") {
        Some(v) => match parse_usize(v.as_str()) {
            Some(n) => n,
            None => 1000,
        },
        None => 1000,
    };
    (file, max)
}

/// The action for a subcommand: `recent [N]` (10 unless N parses), `search
/// [QUERY]` (empty query by default), `clear`, anything else is a usage error.
pub open spec fn history_action_spec(sub: Seq<char>, arg: Option<Seq<char>>, a: HistoryAction) -> bool {
    if sub == "recent"@ {
        a == HistoryAction::Recent(
            match arg {
                Some(s) => match parsed_usize(s) {
                    Some(n) => n,
                    None => 10,
                },
                None => 10,
            },
        )
    } else if sub == "search"@ {
        a matches HistoryAction::Search(q) && q@ == match arg {
            Some(s) => s,
            None => Seq::empty(),
        }
    } else if sub == "clear"@ {
        a == HistoryAction::Clear
    } else {
        a == HistoryAction::Usage
    }
}

/// The characters of an optional string slice.
pub open spec fn opt_str_chars(o: Option<&str>) -> Option<Seq<char>> {
    match o {
        Some(s) => Some(s@),
        None => None,
    }
}

/// The action a history subcommand asks for.
pub fn history_action(subcommand: &str, arg: Option<&str>) -> (r: HistoryAction)
    ensures
        history_action_spec(subcommand@, opt_str_chars(arg), r),
{
    if str_eq(subcommand, "recent") {
        let count = match arg {
            Some(s) => match parse_usize(s) {
                Some(n) => n,
                None => 10,
            },
            None => 10,
        };
        HistoryAction::Recent(count)
    } else if str_eq(subcommand, "search") {
        let q = match arg {
            Some(s) => s,
            None => "",
        };
        proof {
            reveal_strlit("");
            assert(q@ == match opt_str_chars(arg) {
                Some(s) => s,
                None => Seq::<char>::empty(),
            });
        }
        let r = HistoryAction::Search(string_of(q));
        assert(r matches HistoryAction::Search(x) && x@ == q@);
        r
    } else if str_eq(subcommand, "clear") {
        HistoryAction::Clear
    } else {
        HistoryAction::Usage
    }
}

/// Handles `--history SUBCOMMAND [ARG]`: the request to carry out, or
/// nothing when the command line asks for none.
pub fn handle_history_commands(args: &[String], base_config: &PluginConfig) -> (r: Option<HistoryRequest>)
    ensures
        (args@.len() > 2 && args@[1]@ == "--history"@) ==> (r matches Some(req) && history_action_spec(
            args@[2]@,
            arg_at(args@, 3),
            req.action,
        ) && opt_view(req.history_file) == vars_get(base_config.settings@, "history_file"@)
            && req.max_entries == configured_limit(base_config.settings@)),
        !(args@.len() > 2 && args@[1]@ == "--history"@) ==> r is None,
{
    if args.len() > 2 && arg_is(args, 1, "--history") {
        let action = history_action(args[2].as_str(), get_arg(args, 3));
        let (history_file, max_entries) = history_settings(base_config);
        return Some(HistoryRequest { action, history_file, max_entries });
    }
    None
}

} // verus!
