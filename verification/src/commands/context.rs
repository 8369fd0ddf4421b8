use vstd::prelude::*;
use crate::cli::{arg_at, arg_is};
use crate::shell_core::types::{StringMap, has_key};
use crate::starship::{export_context, SHELLAI_PREFIX};
use crate::text::{string_of, uppercase};

verus! {

/// Name of the variable that carries the working directory.
pub const CURRENT_DIR_KEY: &'static str = "CURRENT_DIR";

/// Second name under which the working directory is exported.
pub const PWD_KEY: &'static str = "PWD";

/// Whether the command line asks for `--export-context`.
pub open spec fn asks_export(a: Seq<String>) -> bool {
    arg_at(a, 1) == Some("--export-context"@)
}

/// Handles `--export-context`: the `SHELLAI_*` variables to print for the
/// working directory `current_dir` (exported as `CURRENT_DIR` and as `PWD`),
/// or nothing when the command line asks for something else.
pub fn handle_export_context_command(args: &[String], current_dir: &str) -> (r: Option<Vec<(String, String)>>)
    ensures
        match r {
            Some(e) => {
                &&& asks_export(args@)
                &&& e.len() == 2
                &&& e@[0].0@ == SHELLAI_PREFIX@ + uppercase(CURRENT_DIR_KEY@)
                &&& e@[0].1@ == current_dir@
                &&& e@[1].0@ == SHELLAI_PREFIX@ + uppercase(PWD_KEY@)
                &&& e@[1].1@ == current_dir@
            },
            None => !asks_export(args@),
        },
{
    if args.len() > 1 && arg_is(args, 1, "--export-context") {
        let mut context = StringMap::new();
        context.insert(string_of(CURRENT_DIR_KEY), string_of(current_dir));
        assert(context@ =~= seq![(CURRENT_DIR_KEY@, current_dir@)]);
        context.insert(string_of(PWD_KEY), string_of(current_dir));
        proof {
            reveal_strlit("CURRENT_DIR");
            reveal_strlit("PWD");
            assert(CURRENT_DIR_KEY@.len() != PWD_KEY@.len());
            assert(!has_key(seq![(CURRENT_DIR_KEY@, current_dir@)], PWD_KEY@));
        }
        assert(context@ =~= seq![(CURRENT_DIR_KEY@, current_dir@), (PWD_KEY@, current_dir@)]);
        Some(export_context(&context))
    } else {
        None
    }
}

} // verus!
