use shally::ai_core::{AiEngine, PromptBuilder};
use shally::shell_core::ShellContext;
use shally::smart_history::{HistoryEntry, SmartHistory};

fn ctx(cmd: Option<&str>, output: Option<&str>, exit_code: Option<i32>, cwd: &str, shell: &str) -> ShellContext {
    ShellContext {
        last_command: cmd.map(|s| s.to_string()),
        last_output: output.map(|s| s.to_string()),
        exit_code,
        cwd: cwd.to_string(),
        shell: shell.to_string(),
    }
}

#[test]
fn test_ai_decision_on_error() {
    let c = ctx(
        Some("git commmit -m 'fix'"),
        Some("error: pathspec 'commmit' did not match any file(s) known to git"),
        Some(1),
        "/home/user/project",
        "zsh",
    );
    let decision = AiEngine::should_intercept(&c);
    assert!(decision.should_intercept);
    assert_eq!(decision.reason, "command_failed");
    assert!(decision.suggestion_priority > 0);
}

#[test]
fn test_ai_decision_on_unknown_command() {
    let c = ctx(Some("docker-composee up"), Some("command not found: docker-composee"), Some(127), "/home/user", "fish");
    let decision = AiEngine::should_intercept(&c);
    assert!(decision.should_intercept);
    assert_eq!(decision.reason, "command_not_found");
}

#[test]
fn test_ai_decision_no_intercept_on_success() {
    let c = ctx(Some("ls -la"), Some("total 48..."), Some(0), "/home/user", "bash");
    let decision = AiEngine::should_intercept(&c);
    assert!(!decision.should_intercept);
}

#[test]
fn test_prompt_builder_includes_context() {
    let c = ctx(Some("rm -rf /tmp/test"), None, None, "/home/user/dangerous_zone", "zsh");
    let prompt = PromptBuilder::build_help_prompt(&c);
    assert!(prompt.contains("rm -rf"));
    assert!(prompt.contains("/home/user/dangerous_zone"));
    assert!(prompt.contains("zsh"));
    assert!(prompt.contains("fix") || prompt.contains("explain"));
}

#[test]
fn test_prompt_builder_handles_missing_data() {
    let c = ctx(None, None, None, "/", "unknown");
    let prompt = PromptBuilder::build_help_prompt(&c);
    assert!(!prompt.is_empty());
}

#[test]
fn test_parse_ai_suggestion_command() {
    let response = "```bash\ngit commit -m 'fix'\n```";
    let parsed = AiEngine::parse_suggestion(response);
    assert!(parsed.is_some());
    let cmd = parsed.unwrap();
    assert_eq!(cmd.action, "execute");
    assert!(cmd.content.contains("git commit"));
}

#[test]
fn test_parse_ai_explanation_text() {
    let response = "Вы забыли букву 't' в слове commit. Правильная команда: ...";
    let parsed = AiEngine::parse_suggestion(response);
    assert!(parsed.is_some());
    let cmd = parsed.unwrap();
    assert_eq!(cmd.action, "explain");
}

#[test]
fn test_history_search_ranking_by_frequency() {
    let mut history = SmartHistory::new();
    history.add(HistoryEntry::new("git status", "/proj", 0));
    history.add(HistoryEntry::new("git status", "/proj", 0));
    history.add(HistoryEntry::new("git status", "/proj", 0));
    history.add(HistoryEntry::new("git pull", "/proj", 0));
    let results = history.search("git st", Some("/proj"));
    assert!(!results.is_empty());
    assert_eq!(results[0].command, "git status");
    assert!(results[0].score > results.iter().find(|r| r.command == "git pull").unwrap().score);
}

#[test]
fn test_history_search_context_awareness() {
    let mut history = SmartHistory::new();
    history.add(HistoryEntry::new("npm install", "/frontend", 0));
    history.add(HistoryEntry::new("pip install", "/backend", 0));
    let results = history.search("install", Some("/frontend"));
    assert_eq!(results[0].command, "npm install");
}

#[test]
fn test_history_fuzzy_matching() {
    let mut history = SmartHistory::new();
    history.add(HistoryEntry::new("kubectl get pods", "/dev", 0));
    let results = history.search("kubctl get pds", None);
    assert!(!results.is_empty());
    assert_eq!(results[0].command, "kubectl get pods");
}

#[test]
fn test_get_frequent_commands() {
    let mut history = SmartHistory::new();
    history.add(HistoryEntry::new("ls", "/", 0));
    history.add(HistoryEntry::new("cd ..", "/", 0));
    history.add(HistoryEntry::new("ls", "/", 0));
    let stats = history.get_frequent_commands(1);
    assert_eq!(stats.len(), 1);
    assert_eq!(stats[0].0, "ls");
}

#[test]
fn test_full_fix_flow_simulation() {
    let c = ctx(Some("doker run hello-world"), Some("command not found: doker"), Some(127), "/home", "zsh");
    let decision = AiEngine::should_intercept(&c);
    assert!(decision.should_intercept);
    let prompt = PromptBuilder::build_help_prompt(&c);
    assert!(prompt.contains("doker"));
    let mock_ai_response = "Кажется, вы опечатались. Правильная команда: `docker run hello-world`";
    let suggestion = AiEngine::parse_suggestion(mock_ai_response);
    assert!(suggestion.is_some());
    assert_eq!(suggestion.unwrap().action, "explain");
}

#[test]
fn test_history_learning_from_correction() {
    let mut history = SmartHistory::new();
    history.add(HistoryEntry::new("gitt status", "/proj", 0));
    history.add(HistoryEntry::new("git status", "/proj", 0));
    history.add(HistoryEntry::new("git status", "/proj", 0));
    let results = history.search("gitt stat", Some("/proj"));
    assert!(!results.is_empty());
    assert_eq!(results[0].command, "git status");
}

#[test]
fn decision_priorities_and_dangerous_commands() {
    let failed_quietly = ctx(Some("make"), Some("nope"), Some(2), "/", "bash");
    let d = AiEngine::should_intercept(&failed_quietly);
    assert_eq!((d.should_intercept, d.reason, d.suggestion_priority), (true, "command_failed", 5));
    let failed_loudly = ctx(Some("make"), Some("Error: x"), Some(2), "/", "bash");
    assert_eq!(AiEngine::should_intercept(&failed_loudly).suggestion_priority, 8);
    let not_found = ctx(None, None, Some(127), "/", "bash");
    assert_eq!(AiEngine::should_intercept(&not_found).suggestion_priority, 10);
    let dangerous = ctx(Some("sudo rm -rf /"), None, None, "/", "bash");
    let d = AiEngine::should_intercept(&dangerous);
    assert_eq!((d.should_intercept, d.reason, d.suggestion_priority), (true, "dangerous_command", 9));
    let dangerous_ok = ctx(Some("dd if=/dev/zero of=x"), None, Some(0), "/", "bash");
    assert_eq!(AiEngine::should_intercept(&dangerous_ok).reason, "dangerous_command");
    let quiet = ctx(None, None, None, "/", "bash");
    let d = AiEngine::should_intercept(&quiet);
    assert_eq!((d.should_intercept, d.reason, d.suggestion_priority), (false, "", 0));
    assert!(AiEngine::is_dangerous_command(":(){ :|:& };:"));
    assert!(AiEngine::is_dangerous_command("echo x > /dev/sda"));
    assert!(!AiEngine::is_dangerous_command("rm -r dir"));
}

#[test]
fn help_prompt_is_exact() {
    let c = ctx(Some("ls"), Some("boom"), Some(-3), "/w", "zsh");
    assert_eq!(
        PromptBuilder::build_help_prompt(&c),
        "You are a helpful shell assistant. The user ran: `ls`. Output/Error: boom. Exit code: -3 (error). Current directory: /w. Shell: zsh. Please provide a concise fix, explanation, or suggestion. If suggesting a command, format it in markdown code blocks with the shell name."
    );
    let c = ctx(None, None, Some(0), "/", "fish");
    assert_eq!(
        PromptBuilder::build_help_prompt(&c),
        "You are a helpful shell assistant. The user's last command is unknown. Current directory: /. Shell: fish. Please provide a concise fix, explanation, or suggestion. If suggesting a command, format it in markdown code blocks with the shell name."
    );
}

#[test]
fn explain_and_not_found_prompts() {
    assert_eq!(
        PromptBuilder::build_explain_prompt("rm x", "/t"),
        "Explain what this command does in simple terms: `rm x`. Current directory: /t. Warn if the command is potentially dangerous."
    );
    assert_eq!(
        PromptBuilder::build_not_found_prompt("doker", "zsh"),
        "The command `doker` was not found in zsh. Suggest: 1) How to install it, 2) Alternative commands, 3) Common typos."
    );
}

#[test]
fn code_block_extraction() {
    assert_eq!(AiEngine::extract_code_block("Try:\n```sh\n  ls -la  \n```\nok"), Some("ls -la".to_string()));
    assert_eq!(AiEngine::extract_code_block("```\n\n```"), None);
    assert_eq!(AiEngine::extract_code_block("```fish\nset x 1\n``` and ```bash\necho b\n```"), Some("echo b".to_string()));
    assert_eq!(AiEngine::extract_code_block("```bash\nunterminated"), None);
    assert_eq!(AiEngine::extract_code_block("use `ls` here"), None);
    assert!(AiEngine::parse_suggestion("   \n\t ").is_none());
    let reply = AiEngine::parse_suggestion("  just words ").unwrap();
    assert_eq!((reply.action, reply.content.as_str()), ("explain", "  just words "));
}

#[test]
fn smart_history_counts_runs_once_per_command() {
    let mut history = SmartHistory::new();
    history.add(HistoryEntry::new("ls", "/a", 0));
    history.add(HistoryEntry::new("ls", "/b", 1));
    history.add(HistoryEntry::new("pwd", "/", 0));
    assert_eq!(history.len(), 2);
    let stats = history.get_frequent_commands(10);
    assert_eq!(stats, vec![("ls".to_string(), 2), ("pwd".to_string(), 1)]);
    let r = history.search("LS", Some("/a/sub"));
    assert_eq!(r.len(), 1);
    assert_eq!(r[0].cwd, "/a");
    // 10 + 20 exact (ignoring case) + 2 * 2 runs + 15 related directory
    assert_eq!(r[0].score, 49);
    history.clear();
    assert!(history.is_empty());
}

#[test]
fn smart_history_recent_is_newest_first() {
    let mut history = SmartHistory::new();
    let mut a = HistoryEntry::new("a", "/", 0);
    a.timestamp = 10;
    let mut b = HistoryEntry::new("b", "/", 0);
    b.timestamp = 30;
    let mut c = HistoryEntry::new("c", "/", 0);
    c.timestamp = 20;
    history.add(a);
    history.add(b);
    history.add(c);
    let recent: Vec<&str> = history.get_recent(2).iter().map(|e| e.command.as_str()).collect();
    assert_eq!(recent, vec!["b", "c"]);
}

#[test]
fn fuzzy_match_needs_a_close_word() {
    let e = HistoryEntry::new("kubectl get pods", "/", 0);
    assert!(e.matches("KUBECTL"));
    assert!(e.matches("kubctl"));
    assert!(e.matches("pod"));
    assert!(e.matches("podss"));
    assert!(!e.matches("kbctl"));
    assert!(!e.matches("deploy"));
    assert!(e.matches(""));
}
