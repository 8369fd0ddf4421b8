//! AI integration for command suggestions: configuration, prompt building,
//! and what to do with a request before and after it goes to the API.
use vstd::prelude::*;
use crate::history::HistoryEntry;
use crate::shell_core::types::{StringMap, VarsView};
use crate::text::{int_decimal, nat_decimal, digit_char, push_char, join, lemma_join_push, lowercase, seq_starts_with, string_of, push_i64,
    push_decimal, to_lowercase, str_starts_with, trim, trim_str, opt_view};

verus! {

/// A command suggestion. The confidence is in percent.
#[derive(Debug, Clone)]
pub struct AiSuggestion {
    pub command: String,
    pub confidence_percent: u8,
    pub explanation: Option<String>,
    pub ai_command: Option<String>,
}

/// A confidence in percent written as a fraction with two decimals (85
/// gives `0.85`).
pub open spec fn confidence_fraction(p: nat) -> Seq<char> {
    nat_decimal(p / 100) + "."@ + seq![digit_char(((p % 100) / 10) as int), digit_char((p % 10) as int)]
}

/// The lines that present a suggestion: the command, the explanation (`None`
/// when there is none), the confidence, and the AI command when there is one.
pub open spec fn report_lines(s: AiSuggestion) -> Seq<Seq<char>> {
    seq![
        "Command: "@ + s.command@,
        "Explanation: "@ + match s.explanation {
            Some(e) => e@,
            None => "None"@,
        },
        "Confidence: "@ + confidence_fraction(s.confidence_percent as nat),
    ] + match s.ai_command {
        Some(c) => seq!["AI Command: "@ + c@],
        None => Seq::empty(),
    }
}

impl AiSuggestion {
    /// The lines that present the suggestion to the user.
    pub fn report(&self) -> (r: Vec<String>)
        ensures
            r@.map_values(|l: String| l@) == report_lines(*self),
    {
        let mut r: Vec<String> = Vec::new();
        let mut command = string_of("Command: ");
        command.append(self.command.as_str());
        r.push(command);
        let mut explanation = string_of("Explanation: ");
        match &self.explanation {
            Some(e) => explanation.append(e.as_str()),
            None => explanation.append("None"),
        }
        r.push(explanation);
        let mut confidence = string_of("Confidence: ");
        confidence.append(self.confidence_text().as_str());
        r.push(confidence);
        match &self.ai_command {
            Some(c) => {
                let mut line = string_of("AI Command: ");
                line.append(c.as_str());
                r.push(line);
            },
            None => {},
        }
        assert(r@.map_values(|l: String| l@) =~= report_lines(*self));
        r
    }

    /// The confidence as a fraction with two decimals.
    pub fn confidence_text(&self) -> (r: String)
        ensures
            r@ == confidence_fraction(self.confidence_percent as nat),
    {
        let p: u8 = self.confidence_percent;
        let mut r = String::new();
        push_decimal(&mut r, (p / 100) as u64);
        push_char(&mut r, '.');
        let tens: u8 = (p % 100) / 10;
        let ones: u8 = p % 10;
        push_char(&mut r, (48u8 + tens) as char);
        push_char(&mut r, (48u8 + ones) as char);
        proof {
            reveal_strlit(".");
            assert(digit_char(((p % 100) / 10) as int) == (48u8 + tens) as char);
            assert(digit_char((p % 10) as int) == (48u8 + ones) as char);
        }
        assert(r@ =~= confidence_fraction(self.confidence_percent as nat));
        r
    }
}

/// A request to send to an OpenAI-compatible chat completion endpoint.
#[derive(Debug, Clone)]
pub struct ApiRequest {
    pub endpoint: String,
    pub model: String,
    pub prompt: String,
    /// The key to send as a bearer token, when authentication is required.
    pub bearer_token: Option<String>,
}

/// What a suggestion request resolves to before any network traffic: a
/// suggestion available at once, or a request to send.
#[derive(Debug, Clone)]
pub enum SuggestStep {
    Ready(AiSuggestion),
    Send(ApiRequest),
}

/// The abstract settings of an [`AiIntegration`].
pub struct AiSettings {
    pub endpoint: Option<Seq<char>>,
    pub api_key: Option<Seq<char>>,
    pub model: Seq<char>,
    pub require_auth: bool,
}

/// Connection settings for the AI service.
pub struct AiIntegration {
    api_endpoint: Option<String>,
    api_key: Option<String>,
    model: String,
    require_auth: bool,
}

impl View for AiIntegration {
    type V = AiSettings;

    closed spec fn view(&self) -> AiSettings {
        AiSettings {
            endpoint: opt_view(self.api_endpoint),
            api_key: opt_view(self.api_key),
            model: self.model@,
            require_auth: self.require_auth,
        }
    }
}

/// The model used unless configured otherwise.
pub const DEFAULT_MODEL: &'static str = "gpt-3.5-turbo";
/// Error when no endpoint is configured.
pub const ENDPOINT_NOT_SET: &'static str = "API endpoint not set. Call with_config() first.";
/// Error when authentication is required and no key is configured.
pub const KEY_NOT_SET: &'static str = "API key not set. Call with_config() first.";
/// Error when authentication is required and the endpoint or key is empty.
pub const ENDPOINT_OR_KEY_EMPTY: &'static str = "API endpoint or key is empty. Configure with_config() first.";
/// Error when no authentication is required and the endpoint is empty.
pub const ENDPOINT_EMPTY: &'static str = "API endpoint is empty. Configure with_config() first.";
/// Error when the service answers without any choice.
pub const NO_CHOICES: &'static str = "No choices in response";
/// Prefix of the command a local model reports.
pub const LOCAL_COMMAND_PREFIX: &'static str = "shally-ai:";
/// Text of the suggestion prompt before the context.
pub const PROMPT_HEAD: &'static str = "You are a shell command assistant. Based on the following context and command history, suggest the next terminal command.\n\nContext: ";
/// Text of the suggestion prompt between the context and the history.
pub const PROMPT_MIDDLE: &'static str = "\nCommand History: ";
/// Text of the suggestion prompt after the history.
pub const PROMPT_TAIL: &'static str = "\n\nRespond with ONLY the command to execute, nothing else.";

/// The model names a local model: it starts with `local`, ignoring case.
pub open spec fn is_local(model: Seq<char>) -> bool {
    seq_starts_with(lowercase(model), "local"@)
}

/// Why a remote request cannot be made with these settings, if it cannot.
/// Local models need no endpoint.
pub open spec fn config_error(s: AiSettings) -> Option<Seq<char>> {
    if is_local(s.model) {
        None
    } else {
        match s.endpoint {
            None => Some(ENDPOINT_NOT_SET@),
            Some(e) => if s.require_auth {
                match s.api_key {
                    None => Some(KEY_NOT_SET@),
                    Some(k) => if e.len() == 0 || k.len() == 0 {
                        Some(ENDPOINT_OR_KEY_EMPTY@)
                    } else {
                        None
                    },
                }
            } else if e.len() == 0 {
                Some(ENDPOINT_EMPTY@)
            } else {
                None
            },
        }
    }
}

/// One context variable as `key=value`.
pub open spec fn context_item(p: (Seq<char>, Seq<char>)) -> Seq<char> {
    p.0 + "="@ + p.1
}

/// One history entry as `[exit=CODE, DURATIONms] COMMAND`.
pub open spec fn history_item(e: HistoryEntry) -> Seq<char> {
    "[exit="@ + int_decimal(e.exit_code as int) + ", "@ + nat_decimal(e.duration_ms as nat) + "ms] "@ + e.command@
}

/// The suggestion prompt: the context variables joined by `, ` and the
/// history joined by `; ` inside the fixed instructions.
pub open spec fn ai_prompt(ctx: VarsView, hist: Seq<HistoryEntry>) -> Seq<char> {
    PROMPT_HEAD@ + join(ctx.map_values(|p: (Seq<char>, Seq<char>)| context_item(p)), ", "@)
        + PROMPT_MIDDLE@ + join(hist.map_values(|e: HistoryEntry| history_item(e)), "; "@)
        + PROMPT_TAIL@
}

/// The canned suggestion given in test mode.
pub open spec fn is_test_suggestion(s: AiSuggestion) -> bool {
    &&& s.command@ == "echo test-mode"@
    &&& s.confidence_percent == 92
    &&& opt_view(s.explanation) == Some("test mode"@)
    &&& s.ai_command is None
}

/// The simulated suggestion of a local model.
pub open spec fn is_local_suggestion(s: AiSuggestion) -> bool {
    &&& s.command@ == "echo local-suggestion"@
    &&& s.confidence_percent == 90
    &&& opt_view(s.explanation) == Some("local model simulated"@)
    &&& opt_view(s.ai_command) == Some("shally-ai:echo local-suggestion"@)
}

/// The suggestion made from the service's reply `content` for a model.
pub open spec fn is_reply_suggestion(s: AiSuggestion, model: Seq<char>, content: Seq<char>) -> bool {
    &&& s.command@ == trim(content)
    &&& s.confidence_percent == 85
    &&& s.explanation is None
    &&& opt_view(s.ai_command) == if is_local(model) {
        Some(LOCAL_COMMAND_PREFIX@ + trim(content))
    } else {
        None
    }
}

fn test_suggestion() -> (r: AiSuggestion)
    ensures
        is_test_suggestion(r),
{
    AiSuggestion {
        command: string_of("echo test-mode"),
        confidence_percent: 92,
        explanation: Some(string_of("test mode")),
        ai_command: None,
    }
}

fn local_suggestion() -> (r: AiSuggestion)
    ensures
        is_local_suggestion(r),
{
    AiSuggestion {
        command: string_of("echo local-suggestion"),
        confidence_percent: 90,
        explanation: Some(string_of("local model simulated")),
        ai_command: Some(string_of("shally-ai:echo local-suggestion")),
    }
}

impl Default for AiIntegration {
    /// No endpoint or key, the default model, authentication required.
    fn default() -> (r: Self)
        ensures
            r@.endpoint is None,
            r@.api_key is None,
            r@.model == DEFAULT_MODEL@,
            r@.require_auth,
    {
        AiIntegration { api_endpoint: None, api_key: None, model: string_of(DEFAULT_MODEL), require_auth: true }
    }
}

impl AiIntegration {
    /// Unconfigured settings with the default model.
    pub fn new() -> (r: Self)
        ensures
            r@.endpoint is None,
            r@.api_key is None,
            r@.model == DEFAULT_MODEL@,
            r@.require_auth,
    {
        Self::default()
    }

    /// Use a remote endpoint with an API key.
    pub fn with_config(&mut self, endpoint: &str, api_key: &str) -> (r: &mut Self)
        ensures
            (*r)@.endpoint == Some(endpoint@),
            (*r)@.api_key == Some(api_key@),
            (*r)@.model == old(self)@.model,
            (*r)@.require_auth == old(self)@.require_auth,
            *final(self) == *final(r),
    {
        self.api_endpoint = Some(string_of(endpoint));
        self.api_key = Some(string_of(api_key));
        self
    }

    /// Use a local endpoint without authentication.
    pub fn with_local_model(&mut self, endpoint: &str) -> (r: &mut Self)
        ensures
            (*r)@.endpoint == Some(endpoint@),
            (*r)@.api_key is None,
            (*r)@.model == old(self)@.model,
            !(*r)@.require_auth,
            *final(self) == *final(r),
    {
        self.api_endpoint = Some(string_of(endpoint));
        self.api_key = None;
        self.require_auth = false;
        self
    }

    /// Use the given model.
    pub fn with_model(&mut self, model: &str) -> (r: &mut Self)
        ensures
            (*r)@.endpoint == old(self)@.endpoint,
            (*r)@.api_key == old(self)@.api_key,
            (*r)@.model == model@,
            (*r)@.require_auth == old(self)@.require_auth,
            *final(self) == *final(r),
    {
        self.model = string_of(model);
        self
    }

    /// Whether the model is a local one (its name starts with `local`,
    /// ignoring case).
    pub fn is_local_model(&self) -> (r: bool)
        ensures
            r == is_local(self@.model),
    {
        let lower = to_lowercase(self.model.as_str());
        str_starts_with(lower.as_str(), "local")
    }

    /// The configured endpoint.
    pub fn api_endpoint(&self) -> (r: Option<&String>)
        ensures
            match r {
                Some(e) => self@.endpoint == Some(e@),
                None => self@.endpoint is None,
            },
    {
        self.api_endpoint.as_ref()
    }

    /// The configured API key.
    pub fn api_key(&self) -> (r: Option<&String>)
        ensures
            match r {
                Some(k) => self@.api_key == Some(k@),
                None => self@.api_key is None,
            },
    {
        self.api_key.as_ref()
    }

    /// The configured model.
    pub fn model(&self) -> (r: &str)
        ensures
            r@ == self@.model,
    {
        self.model.as_str()
    }

    /// Whether requests carry the API key.
    pub fn require_auth(&self) -> (r: bool)
        ensures
            r == self@.require_auth,
    {
        self.require_auth
    }

    /// Decides how a suggestion is obtained. Settings that cannot reach a
    /// remote service are refused with a message; in test mode a canned
    /// suggestion is given, a local model gives a simulated one, and
    /// otherwise a request carrying the prompt is to be sent.
    pub fn suggest_command(&self, context: &StringMap, history: &[HistoryEntry], test_mode: bool) -> (r: Result<
        SuggestStep,
        String,
    >)
        ensures
            match config_error(self@) {
                Some(msg) => r matches Err(m) && m@ == msg,
                None => r matches Ok(step) && if test_mode {
                    step matches SuggestStep::Ready(s) && is_test_suggestion(s)
                } else if is_local(self@.model) {
                    step matches SuggestStep::Ready(s) && is_local_suggestion(s)
                } else {
                    step matches SuggestStep::Send(req) && {
                        &&& self@.endpoint == Some(req.endpoint@)
                        &&& req.model@ == self@.model
                        &&& req.prompt@ == ai_prompt(context@, history@)
                        &&& opt_view(req.bearer_token) == if self@.require_auth {
                            self@.api_key
                        } else {
                            None
                        }
                    }
                },
            },
    {
        if !self.is_local_model() {
            let endpoint = match &self.api_endpoint {
                Some(e) => e,
                None => return Err(string_of(ENDPOINT_NOT_SET)),
            };
            if self.require_auth {
                let key = match &self.api_key {
                    Some(k) => k,
                    None => return Err(string_of(KEY_NOT_SET)),
                };
                if endpoint.as_str().is_empty() || key.as_str().is_empty() {
                    return Err(string_of(ENDPOINT_OR_KEY_EMPTY));
                }
            } else {
                if endpoint.as_str().is_empty() {
                    return Err(string_of(ENDPOINT_EMPTY));
                }
            }
        }
        if test_mode {
            return Ok(SuggestStep::Ready(test_suggestion()));
        }
        if self.is_local_model() {
            return Ok(SuggestStep::Ready(local_suggestion()));
        }
        let prompt = self.build_prompt(context, history);
        let endpoint = match &self.api_endpoint {
            Some(e) => e.clone(),
            None => return Err(string_of(ENDPOINT_NOT_SET)),
        };
        let bearer_token = if self.require_auth {
            match &self.api_key {
                Some(k) => Some(k.clone()),
                None => None,
            }
        } else {
            None
        };
        Ok(SuggestStep::Send(ApiRequest { endpoint, model: self.model.clone(), prompt, bearer_token }))
    }

    /// The suggestion prompt for the given context variables and history.
    pub fn build_prompt(&self, context: &StringMap, history: &[HistoryEntry]) -> (r: String)
        ensures
            r@ == ai_prompt(context@, history@),
    {
        let ghost citems = context@.map_values(|p: (Seq<char>, Seq<char>)| context_item(p));
        let ghost hitems = history@.map_values(|e: HistoryEntry| history_item(e));
        let mut r = string_of(PROMPT_HEAD);
        let ghost base = r@;
        let mut i: usize = 0;
        while i < context.len()
            invariant
                i <= context@.len(),
                citems == context@.map_values(|p: (Seq<char>, Seq<char>)| context_item(p)),
                r@ == base + join(citems.take(i as int), ", "@),
            decreases context@.len() - i,
        {
            proof {
                lemma_join_push(citems, ", "@, i as int);
            }
            let (k, v) = context.pair(i);
            if i > 0 {
                r.append(", ");
            }
            r.append(k.as_str());
            r.append("=");
            r.append(v.as_str());
            i = i + 1;
            proof {
                if i == 1 {
                    assert(citems.take(1) =~= seq![citems[0]]);
                }
            }
            assert(r@ =~= base + join(citems.take(i as int), ", "@));
        }
        assert(citems.take(i as int) =~= citems);
        r.append(PROMPT_MIDDLE);
        let ghost base2 = r@;
        let mut j: usize = 0;
        while j < history.len()
            invariant
                j <= history@.len(),
                hitems == history@.map_values(|e: HistoryEntry| history_item(e)),
                r@ == base2 + join(hitems.take(j as int), "; "@),
            decreases history@.len() - j,
        {
            proof {
                lemma_join_push(hitems, "; "@, j as int);
            }
            let e = &history[j];
            if j > 0 {
                r.append("; ");
            }
            r.append("[exit=");
            push_i64(&mut r, e.exit_code as i64);
            r.append(", ");
            push_decimal(&mut r, e.duration_ms);
            r.append("ms] ");
            r.append(e.command.as_str());
            j = j + 1;
            assert(r@ =~= base2 + join(hitems.take(j as int), "; "@));
        }
        assert(hitems.take(j as int) =~= hitems);
        r.append(PROMPT_TAIL);
        assert(r@ =~= ai_prompt(context@, history@));
        r
    }

    /// The suggestion made from the choices the service returned: the first
    /// choice, trimmed.
    pub fn suggestion_from_choices(&self, choices: &Vec<String>) -> (r: Result<AiSuggestion, String>)
        ensures
            choices@.len() == 0 ==> (r matches Err(m) && m@ == NO_CHOICES@),
            choices@.len() > 0 ==> (r matches Ok(s) && is_reply_suggestion(s, self@.model, choices@[0]@)),
    {
        if choices.len() == 0 {
            return Err(string_of(NO_CHOICES));
        }
        let content = trim_str(choices[0].as_str());
        let ai_command = if self.is_local_model() {
            let mut c = string_of(LOCAL_COMMAND_PREFIX);
            c.append(content.as_str());
            Some(c)
        } else {
            None
        };
        Ok(AiSuggestion { command: content, confidence_percent: 85, explanation: None, ai_command })
    }
}

} // verus!
