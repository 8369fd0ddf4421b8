use shally::ai::{AiIntegration, AiSuggestion};
use shally::commands::context::handle_export_context_command;
use shally::config::load_config;
use shally::history::HistoryEntry;
use shally::shell_core::{PluginConfig, StringMap};

fn args(list: &[&str]) -> Vec<String> {
    list.iter().map(|s| s.to_string()).collect()
}

fn finished(command: &str, exit_code: i32, duration_ms: u64) -> HistoryEntry {
    let mut e = HistoryEntry::new(command);
    e.mark_completed(exit_code, duration_ms);
    e
}

#[test]
fn export_context_command_exports_current_dir() {
    let exports = handle_export_context_command(&args(&["shally", "--export-context"]), "/home/user/project")
        .expect("the command asks for an export");
    assert_eq!(
        exports,
        vec![
            ("SHELLAI_CURRENT_DIR".to_string(), "/home/user/project".to_string()),
            ("SHELLAI_PWD".to_string(), "/home/user/project".to_string()),
        ]
    );
}

#[test]
fn export_context_command_ignores_other_flags() {
    assert!(handle_export_context_command(&args(&["shally", "--install"]), "/tmp").is_none());
    assert!(handle_export_context_command(&args(&["shally"]), "/tmp").is_none());
}

#[test]
fn search_line_shows_command_exit_and_duration() {
    let e = finished("cargo build", 101, 2500);
    assert_eq!(e.search_line(), "[cargo build] exit=101 2500ms");
}

#[test]
fn search_line_shows_negative_exit_code() {
    let e = HistoryEntry::new("sleep 100");
    assert_eq!(e.search_line(), "[sleep 100] exit=-1 0ms");
}

#[test]
fn recent_line_adds_the_ai_suggestion() {
    let e = finished("gti status", 127, 3).with_ai_suggestion("git status");
    assert_eq!(e.recent_line(), "[gti status] exit=127 3ms (AI: git status)");
    let plain = finished("ls", 0, 7);
    assert_eq!(plain.recent_line(), "[ls] exit=0 7ms");
}

fn suggestion(percent: u8) -> AiSuggestion {
    AiSuggestion { command: "ls".to_string(), confidence_percent: percent, explanation: None, ai_command: None }
}

#[test]
fn confidence_is_written_with_two_decimals() {
    assert_eq!(suggestion(85).confidence_text(), "0.85");
    assert_eq!(suggestion(92).confidence_text(), "0.92");
    assert_eq!(suggestion(5).confidence_text(), "0.05");
    assert_eq!(suggestion(100).confidence_text(), "1.00");
    assert_eq!(suggestion(0).confidence_text(), "0.00");
}

#[test]
fn load_config_keeps_a_loaded_configuration() {
    let mut settings = StringMap::new();
    settings.insert("timeout".to_string(), "30".to_string());
    let config = load_config(Some(PluginConfig { shell_name: "fish".to_string(), settings }));
    assert_eq!(config.shell_name, "fish");
    assert_eq!(config.settings.get("timeout").map(|s| s.as_str()), Some("30"));
}

#[test]
fn test_load_config_from_nonexistent_path() {
    // Nothing can be read from `/tmp/shally_nonexistent_test.yaml`, so no
    // configuration is loaded from it.
    let config = load_config(None);
    assert_eq!(config.shell_name, "zsh");
    assert!(config.settings.is_empty());
}

#[test]
fn export_context_prints_current_dir_and_pwd() {
    let exports = handle_export_context_command(&args(&["shally", "--export-context"]), "/home/user").unwrap();
    let lines: Vec<String> = exports.iter().map(|(k, v)| format!("{}={}", k, v)).collect();
    assert_eq!(lines, vec!["SHELLAI_CURRENT_DIR=/home/user", "SHELLAI_PWD=/home/user"]);
}

#[test]
fn ai_reply_report_lines() {
    let mut ai = AiIntegration::new();
    ai.with_config("https://api.openai.com/v1/chat/completions", "sk-KEY").with_model("gpt-4");
    let suggestion = ai.suggestion_from_choices(&vec!["  ls -la\n".to_string()]).unwrap();
    assert_eq!(suggestion.report(), vec!["Command: ls -la", "Explanation: None", "Confidence: 0.85"]);
}

#[test]
fn local_suggestion_report_lists_ai_command() {
    let s = AiSuggestion {
        command: "echo local-suggestion".to_string(),
        confidence_percent: 90,
        explanation: Some("local model simulated".to_string()),
        ai_command: Some("shally-ai:echo local-suggestion".to_string()),
    };
    assert_eq!(
        s.report(),
        vec![
            "Command: echo local-suggestion",
            "Explanation: local model simulated",
            "Confidence: 0.90",
            "AI Command: shally-ai:echo local-suggestion",
        ]
    );
}
