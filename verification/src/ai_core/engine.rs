use vstd::prelude::*;
use super::decision::AiDecision;
use crate::shell_core::types::ShellContext;
use crate::errors::ShallyError;
use crate::text::{lemma_blank_is_whitespace, lemma_no_occurrence_in_whitespace, occurs_at, seq_contains, find_first_from,
    first_occurrence_from, lemma_first_occurrence_unique, trim, opt_view, to_chars, find_first, trimmed_range, str_contains, trim_str, string_of};

verus! {

/// A parsed suggestion from the AI.
#[derive(Debug, Clone, PartialEq)]
pub struct AiSuggestion {
    /// Type of action: "execute" or "explain"
    pub action: &'static str,
    /// The content (command or explanation text)
    pub content: String,
}

/// Main AI engine: decides when to help and reads replies.
pub struct AiEngine;

/// The output mentions an error.
pub open spec fn mentions_error(output: Option<Seq<char>>) -> bool {
    match output {
        Some(o) => seq_contains(o, "error"@) || seq_contains(o, "Error"@),
        None => false,
    }
}

/// The command contains a known destructive pattern.
pub open spec fn is_dangerous(cmd: Seq<char>) -> bool {
    ||| seq_contains(cmd, "rm -rf"@)
    ||| seq_contains(cmd, "dd if="@)
    ||| seq_contains(cmd, "> /dev/"@)
    ||| seq_contains(cmd, "chmod -R 777"@)
    ||| seq_contains(cmd, "mkfs"@)
    ||| seq_contains(cmd, ":(){ :|:& };:"@)
}

/// The decision `(intercept, reason, priority)` for a shell state: an unknown
/// command (exit 127) first, then any other failure (more urgent when the
/// output mentions an error), then a destructive last command; otherwise no
/// interception.
pub open spec fn intercept_decision(
    exit_code: Option<i32>,
    last_output: Option<Seq<char>>,
    last_command: Option<Seq<char>>,
) -> (bool, Seq<char>, u8) {
    if exit_code == Some(127i32) {
        (true, "command_not_found"@, 10)
    } else if exit_code is Some && exit_code != Some(0i32) {
        (true, "command_failed"@, if mentions_error(last_output) { 8 } else { 5 })
    } else if last_command is Some && is_dangerous(last_command->0) {
        (true, "dangerous_command"@, 9)
    } else {
        (false, ""@, 0)
    }
}

/// The command between a `marker` fence and the next closing fence, trimmed,
/// when that is not empty.
pub open spec fn block_candidate(t: Seq<char>, marker: Seq<char>) -> Option<Seq<char>> {
    match find_first_from(t, marker, 0) {
        Some(s) => {
            let cs = s + marker.len();
            match find_first_from(t, "```"@, cs) {
                Some(e) => {
                    let cmd = trim(t.subrange(cs, e));
                    if cmd.len() > 0 {
                        Some(cmd)
                    } else {
                        None
                    }
                },
                None => None,
            }
        },
        None => None,
    }
}

/// The command in a reply: the first non-empty fenced block, trying the
/// fences ```` ```bash ````, ```` ```sh ````, ```` ```zsh ````, ```` ```fish ```` and
/// ```` ``` ```` in turn. Inline code spans are part of an explanation.
pub open spec fn code_block(t: Seq<char>) -> Option<Seq<char>> {
    if block_candidate(t, "```bash"@) is Some {
        block_candidate(t, "```bash"@)
    } else if block_candidate(t, "```sh"@) is Some {
        block_candidate(t, "```sh"@)
    } else if block_candidate(t, "```zsh"@) is Some {
        block_candidate(t, "```zsh"@)
    } else if block_candidate(t, "```fish"@) is Some {
        block_candidate(t, "```fish"@)
    } else {
        block_candidate(t, "```"@)
    }
}

/// The `(action, content)` a reply is read as: a command to execute when it
/// holds one, else the whole reply as an explanation unless it is blank.
pub open spec fn parsed_suggestion(response: Seq<char>) -> Option<(Seq<char>, Seq<char>)> {
    match code_block(response) {
        Some(c) => Some(("execute"@, c)),
        None => if trim(response).len() > 0 {
            Some(("explain"@, response))
        } else {
            None
        },
    }
}

/// A reply is understood (as a command or an explanation) exactly when it is
/// not blank.
pub proof fn lemma_reply_understood_unless_blank(response: Seq<char>)
    ensures
        parsed_suggestion(response) is None <==> trim(response).len() == 0,
{
    if trim(response).len() == 0 {
        lemma_blank_is_whitespace(response);
        reveal_strlit("```");
        reveal_strlit("```bash");
        reveal_strlit("```sh");
        reveal_strlit("```zsh");
        reveal_strlit("```fish");
        lemma_no_occurrence_in_whitespace(response, "```bash"@, 0);
        lemma_no_occurrence_in_whitespace(response, "```sh"@, 0);
        lemma_no_occurrence_in_whitespace(response, "```zsh"@, 0);
        lemma_no_occurrence_in_whitespace(response, "```fish"@, 0);
        lemma_no_occurrence_in_whitespace(response, "```"@, 0);
    }
}

/// A command holding any of the known destructive patterns (recursive
/// removal, raw disk writes, redirection to a device, world-writable
/// permissions, file-system creation, the fork bomb) is dangerous, and when
/// the last exit code shows no failure, such a last command makes the engine
/// step in with reason `dangerous_command` and priority 9.
pub proof fn lemma_known_patterns_are_dangerous(
    cmd: Seq<char>,
    pat: Seq<char>,
    at: int,
    exit_code: Option<i32>,
    last_output: Option<Seq<char>>,
)
    requires
        pat == "rm -rf"@ || pat == "dd if="@ || pat == "> /dev/"@ || pat == "chmod -R 777"@ || pat == "mkfs"@
            || pat == ":(){ :|:& };:"@,
        0 <= at,
        at + pat.len() <= cmd.len(),
        cmd.subrange(at, at + pat.len()) == pat,
        exit_code is None || exit_code == Some(0i32),
    ensures
        is_dangerous(cmd),
        intercept_decision(exit_code, last_output, Some(cmd)) == (true, "dangerous_command"@, 9u8),
{
    assert(occurs_at(cmd, pat, at));
    assert(seq_contains(cmd, pat));
}

/// Every position where `"```"` occurs in `"```" + tag + c + "```"`, when
/// neither `tag` nor `c` holds a backtick and `c` is not empty: the start or
/// the end.
proof fn lemma_fence_positions(tag: Seq<char>, c: Seq<char>, i: int)
    requires
        forall|k: int| 0 <= k < tag.len() ==> tag[k] != '`',
        forall|k: int| 0 <= k < c.len() ==> c[k] != '`',
        tag.len() > 0,
        c.len() > 0,
        occurs_at("```"@ + tag + c + "```"@, "```"@, i),
    ensures
        i == 0 || i == tag.len() + c.len() + 3,
{
    reveal_strlit("```");
    let t = "```"@ + tag + c + "```"@;
    let n = t.len();
    assert(t.subrange(i, i + 3)[0] == t[i]);
    assert(t.subrange(i, i + 3)[1] == t[i + 1]);
    assert(t.subrange(i, i + 3)[2] == t[i + 2]);
    if 0 < i < n - 3 {
        let k = if i < 3 {
            3
        } else {
            i
        };
        assert(t[k] == '`');
        if k < 3 + tag.len() {
            assert(t[k] == tag[k - 3]);
        } else {
            assert(t[k] == c[k - 3 - tag.len()]);
        }
    }
}

/// A marker made of `"```"` and a non-empty word occurs in
/// `"```" + tag + c + "```"` only at the start, and only when the word begins
/// the tag.
proof fn lemma_marker_occurrence(tag: Seq<char>, c: Seq<char>, word: Seq<char>, i: int)
    requires
        forall|k: int| 0 <= k < tag.len() ==> tag[k] != '`',
        forall|k: int| 0 <= k < c.len() ==> c[k] != '`',
        tag.len() > 0,
        c.len() > 0,
        word.len() > 0,
        occurs_at("```"@ + tag + c + "```"@, "```"@ + word, i),
    ensures
        i == 0,
        word[0] == tag[0],
{
    reveal_strlit("```");
    let t = "```"@ + tag + c + "```"@;
    let m = "```"@ + word;
    assert(t.subrange(i, i + 3) =~= t.subrange(i, i + m.len()).subrange(0, 3));
    assert(m.subrange(0, 3) =~= "```"@);
    assert(occurs_at(t, "```"@, i));
    lemma_fence_positions(tag, c, i);
    assert(t.subrange(i, i + m.len())[3] == m[3]);
    assert(t[3] == tag[0]);
}

/// A marker whose word does not begin the tag does not occur in
/// `"```" + tag + c + "```"`.
proof fn lemma_absent_marker(tag: Seq<char>, c: Seq<char>, word: Seq<char>)
    requires
        forall|k: int| 0 <= k < tag.len() ==> tag[k] != '`',
        forall|k: int| 0 <= k < c.len() ==> c[k] != '`',
        tag.len() > 0,
        c.len() > 0,
        word.len() > 0,
        word[0] != tag[0],
    ensures
        find_first_from("```"@ + tag + c + "```"@, "```"@ + word, 0) is None,
{
    let t = "```"@ + tag + c + "```"@;
    if exists|i: int| first_occurrence_from(t, "```"@ + word, 0, i) {
        let i = choose|i: int| first_occurrence_from(t, "```"@ + word, 0, i);
        lemma_marker_occurrence(tag, c, word, i);
    }
}

/// The block opened by `"```" + tag` in `"```" + tag + c + "```"` holds `c`.
proof fn lemma_own_marker(tag: Seq<char>, c: Seq<char>)
    requires
        forall|k: int| 0 <= k < tag.len() ==> tag[k] != '`',
        forall|k: int| 0 <= k < c.len() ==> c[k] != '`',
        tag.len() > 0,
        trim(c).len() > 0,
    ensures
        block_candidate("```"@ + tag + c + "```"@, "```"@ + tag) == Some(trim(c)),
{
    reveal_strlit("```");
    let t = "```"@ + tag + c + "```"@;
    let f = "```"@;
    let mk = f + tag;
    assert(t.subrange(0, mk.len() as int) =~= mk);
    assert(first_occurrence_from(t, mk, 0, 0));
    lemma_first_occurrence_unique(t, mk, 0, 0);
    let cs = mk.len() as int;
    let e = t.len() - 3;
    assert(t.subrange(e, e + 3) =~= f);
    assert forall|j: int| cs <= j < e implies !occurs_at(t, f, j) by {
        if occurs_at(t, f, j) {
            assert(t.subrange(j, j + 3)[0] == t[j]);
            assert(t[j] == c[j - cs]);
        }
    }
    assert(first_occurrence_from(t, f, cs, e));
    lemma_first_occurrence_unique(t, f, cs, e);
    assert(t.subrange(cs, e) =~= c);
}

/// A reply made of one fenced block tagged `bash`, `sh`, `zsh` or `fish` gives
/// the text between the tag and the closing fence, trimmed: the tag is never
/// part of the command, and the reply is read as a command to execute.
pub proof fn lemma_tagged_block(tag: Seq<char>, c: Seq<char>)
    requires
        tag == "bash"@ || tag == "sh"@ || tag == "zsh"@ || tag == "fish"@,
        forall|k: int| 0 <= k < c.len() ==> c[k] != '`',
        trim(c).len() > 0,
    ensures
        code_block("```"@ + tag + c + "```"@) == Some(trim(c)),
        parsed_suggestion("```"@ + tag + c + "```"@) == Some(("execute"@, trim(c))),
{
    let f = "```"@;
    let t = f + tag + c + f;
    let b = "```bash"@;
    let sh = "```sh"@;
    let z = "```zsh"@;
    let fi = "```fish"@;
    assert(b =~= f + "bash"@ && sh =~= f + "sh"@ && z =~= f + "zsh"@ && fi =~= f + "fish"@) by {
        reveal_strlit("```");
        reveal_strlit("```bash");
        reveal_strlit("```sh");
        reveal_strlit("```zsh");
        reveal_strlit("```fish");
        reveal_strlit("bash");
        reveal_strlit("sh");
        reveal_strlit("zsh");
        reveal_strlit("fish");
    }
    assert(c.len() > 0) by {
        if c.len() == 0 {
            assert(trim(c) =~= c);
        }
    }
    assert(tag.len() > 0 && forall|k: int| 0 <= k < tag.len() ==> tag[k] != '`') by {
        reveal_strlit("bash");
        reveal_strlit("sh");
        reveal_strlit("zsh");
        reveal_strlit("fish");
    }
    lemma_own_marker(tag, c);
    if tag == "bash"@ {
        assert(block_candidate(t, b) == Some(trim(c)));
    } else if tag == "sh"@ {
        assert("bash"@.len() > 0 && "bash"@[0] != tag[0]) by {
            reveal_strlit("bash");
            reveal_strlit("sh");
        }
        lemma_absent_marker(tag, c, "bash"@);
        assert(block_candidate(t, b) is None);
        assert(block_candidate(t, sh) == Some(trim(c)));
    } else if tag == "zsh"@ {
        assert("bash"@.len() > 0 && "bash"@[0] != tag[0] && "sh"@.len() > 0 && "sh"@[0] != tag[0]) by {
            reveal_strlit("bash");
            reveal_strlit("sh");
            reveal_strlit("zsh");
        }
        lemma_absent_marker(tag, c, "bash"@);
        lemma_absent_marker(tag, c, "sh"@);
        assert(block_candidate(t, b) is None);
        assert(block_candidate(t, sh) is None);
        assert(block_candidate(t, z) == Some(trim(c)));
    } else {
        assert("bash"@.len() > 0 && "bash"@[0] != tag[0] && "sh"@.len() > 0 && "sh"@[0] != tag[0]
            && "zsh"@.len() > 0 && "zsh"@[0] != tag[0]) by {
            reveal_strlit("bash");
            reveal_strlit("sh");
            reveal_strlit("zsh");
            reveal_strlit("fish");
        }
        lemma_absent_marker(tag, c, "bash"@);
        lemma_absent_marker(tag, c, "sh"@);
        lemma_absent_marker(tag, c, "zsh"@);
        assert(block_candidate(t, b) is None);
        assert(block_candidate(t, sh) is None);
        assert(block_candidate(t, z) is None);
        assert(block_candidate(t, fi) == Some(trim(c)));
    }
}

/// The reply of the stand-in AI query.
pub const MOCK_REPLY: &'static str = "This is a mock response. In production, this would call an LLM API.";

/// The `(action, content)` of an optional parsed suggestion.
pub open spec fn suggestion_view(s: Option<AiSuggestion>) -> Option<(Seq<char>, Seq<char>)> {
    match s {
        Some(x) => Some((x.action@, x.content@)),
        None => None,
    }
}

/// `block_candidate` on the characters `tv`.
fn block_candidate_of(tv: &Vec<char>, marker: &str) -> (r: Option<String>)
    ensures
        opt_view(r) == block_candidate(tv@, marker@),
{
    let mv = to_chars(marker);
    let fv = to_chars("```");
    match find_first(tv, &mv, 0) {
        Some(s) => {
            assert(occurs_at(tv@, mv@, s as int));
            assert(s + mv.len() <= tv.len());
            let cs = s + mv.len();
            match find_first(tv, &fv, cs) {
                Some(e) => {
                    let cmd = trimmed_range(tv, cs, e);
                    if cmd.as_str().is_empty() {
                        None
                    } else {
                        Some(cmd)
                    }
                },
                None => None,
            }
        },
        None => None,
    }
}

impl AiEngine {
    /// Determine whether the AI should intercept, given the shell state.
    pub fn should_intercept(ctx: &ShellContext) -> (r: AiDecision)
        ensures
            (r.should_intercept, r.reason@, r.suggestion_priority) == intercept_decision(
                ctx.exit_code,
                opt_view(ctx.last_output),
                opt_view(ctx.last_command),
            ),
    {
        if let Some(code) = ctx.exit_code {
            if code == 127 {
                return AiDecision::intercept("command_not_found", 10);
            }
            if code != 0 {
                let with_error = match &ctx.last_output {
                    Some(o) => str_contains(o.as_str(), "error") || str_contains(o.as_str(), "Error"),
                    None => false,
                };
                let priority: u8 = if with_error {
                    8
                } else {
                    5
                };
                return AiDecision::intercept("command_failed", priority);
            }
        }
        if let Some(cmd) = &ctx.last_command {
            if Self::is_dangerous_command(cmd.as_str()) {
                return AiDecision::intercept("dangerous_command", 9);
            }
        }
        AiDecision::no_intercept()
    }

    /// Parse an AI reply into a structured suggestion.
    pub fn parse_suggestion(response: &str) -> (r: Option<AiSuggestion>)
        ensures
            suggestion_view(r) == parsed_suggestion(response@),
    {
        if let Some(cmd) = Self::extract_code_block(response) {
            return Some(AiSuggestion { action: "execute", content: cmd });
        }
        let t = trim_str(response);
        if !t.as_str().is_empty() {
            return Some(AiSuggestion { action: "explain", content: string_of(response) });
        }
        None
    }

    /// Extract the command from a fenced markdown code block.
    pub fn extract_code_block(text: &str) -> (r: Option<String>)
        ensures
            opt_view(r) == code_block(text@),
    {
        let tv = to_chars(text);
        let r = block_candidate_of(&tv, "```bash");
        if r.is_some() {
            return r;
        }
        let r = block_candidate_of(&tv, "```sh");
        if r.is_some() {
            return r;
        }
        let r = block_candidate_of(&tv, "```zsh");
        if r.is_some() {
            return r;
        }
        let r = block_candidate_of(&tv, "```fish");
        if r.is_some() {
            return r;
        }
        block_candidate_of(&tv, "```")
    }

    /// Whether a command contains a known destructive pattern.
    pub fn is_dangerous_command(cmd: &str) -> (r: bool)
        ensures
            r == is_dangerous(cmd@),
    {
        str_contains(cmd, "rm -rf") || str_contains(cmd, "dd if=") || str_contains(cmd, "> /dev/")
            || str_contains(cmd, "chmod -R 777") || str_contains(cmd, "mkfs") || str_contains(
            cmd,
            ":(){ :|:& };:",
        )
    }

    /// The reply of the stand-in AI query: always the mock text.
    pub fn query_ai_reply(prompt: &str) -> (r: Result<String, ShallyError>)
        ensures
            r matches Ok(s) && s@ == MOCK_REPLY@,
    {
        Ok(string_of(MOCK_REPLY))
    }
}

} // verus!
