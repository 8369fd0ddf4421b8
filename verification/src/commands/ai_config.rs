use vstd::prelude::*;
use crate::cli::{arg_at, arg_is, get_arg};
use crate::commands::history::{history_settings, configured_limit};
use crate::shell_core::types::{PluginConfig, vars_get};
use crate::text::{string_of, opt_view};

verus! {

/// The endpoint used when none is given.
pub const DEFAULT_ENDPOINT: &'static str = "https://api.openai.com/v1/chat/completions";

/// An `--ai-config` command: the AI settings to try and the history they use.
#[derive(Debug, Clone)]
pub struct AiConfigRequest {
    pub endpoint: String,
    pub api_key: String,
    pub model: String,
    pub history_file: Option<String>,
    pub max_history: usize,
}

/// Argument `i`, or `default` when it is absent.
pub open spec fn arg_or(a: Seq<String>, i: int, default: Seq<char>) -> Seq<char> {
    match arg_at(a, i) {
        Some(s) => s,
        None => default,
    }
}

/// Handles `--ai-config [ENDPOINT] [KEY] [MODEL]`: the request to carry out
/// (the OpenAI endpoint, an empty key and gpt-3.5-turbo by default), or
/// nothing when the command line asks for none.
pub fn handle_ai_config_command(args: &[String], base_config: &PluginConfig) -> (r: Option<AiConfigRequest>)
    ensures
        (args@.len() > 1 && args@[1]@ == "--ai-config"@) ==> (r matches Some(req) && req.endpoint@ == arg_or(
            args@,
            2,
            DEFAULT_ENDPOINT@,
        ) && req.api_key@ == arg_or(args@, 3, ""@) && req.model@ == arg_or(args@, 4, "gpt-3.5-turbo"@)
            && opt_view(req.history_file) == vars_get(base_config.settings@, "history_file"@)
            && req.max_history == configured_limit(base_config.settings@)),
        !(args@.len() > 1 && args@[1]@ == "--ai-config"@) ==> r is None,
{
    if args.len() > 1 && arg_is(args, 1, "--ai-config") {
        let endpoint = match get_arg(args, 2) {
            Some(s) => s,
            None => DEFAULT_ENDPOINT,
        };
        let api_key = match get_arg(args, 3) {
            Some(s) => s,
            None => "",
        };
        let model = match get_arg(args, 4) {
            Some(s) => s,
            None => "gpt-3.5-turbo",
        };
        let (history_file, max_history) = history_settings(base_config);
        return Some(
            AiConfigRequest {
                endpoint: string_of(endpoint),
                api_key: string_of(api_key),
                model: string_of(model),
                history_file,
                max_history,
            },
        );
    }
    None
}

} // verus!
