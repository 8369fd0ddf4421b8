use shally::cli::handle_hook_commands;
use shally::commands::ai_config::handle_ai_config_command;
use shally::commands::history::{handle_history_commands, HistoryAction};
use shally::commands::install::handle_install_commands;
use shally::config::config_path_candidates;
use shally::errors::ShallyError;
use shally::history::{HistoryEntry, HistoryManager};
use shally::plugin::mock_plugin::MockPlugin;
use shally::shell_core::{PluginConfig, ShellContext, ShellPlugin, StringMap};
use shally::text::parse_usize;

fn args(list: &[&str]) -> Vec<String> {
    list.iter().map(|s| s.to_string()).collect()
}

fn finished(command: &str, exit_code: i32, duration_ms: u64) -> HistoryEntry {
    let mut e = HistoryEntry::new(command);
    e.mark_completed(exit_code, duration_ms);
    e
}

#[test]
fn test_zsh_install_hook_generation() {
    let snippet = shally::zsh::generate_zshrc_snippet("shally");
    assert!(snippet.contains("precmd"));
    assert!(snippet.contains("preexec"));
    assert!(snippet.contains("shally"));
    assert!(snippet.contains("--hook"));
}

#[test]
fn test_fish_install_hook_generation() {
    let snippet = shally::fish::generate_config_snippet("shally");
    assert!(snippet.contains("fish_prompt"));
    assert!(snippet.contains("command_not_found"));
    assert!(snippet.contains("shally"));
    assert!(snippet.contains("--fish-hook"));
}

#[test]
fn test_config_load_default() {
    let config = PluginConfig::default();
    assert_eq!(config.shell_name, "zsh");
    assert!(config.settings.is_empty());
}

#[test]
fn test_mock_plugin_initialization() {
    let config = PluginConfig::default();
    let result = MockPlugin::initialize(&config);
    assert!(result.is_ok());
}

#[test]
fn test_mock_plugin_pre_prompt_hook() {
    let config = PluginConfig::default();
    let _ = MockPlugin::initialize(&config);
    let mut context = StringMap::new();
    let result = MockPlugin::pre_prompt_hook(&mut context);
    assert!(result.is_ok());
    assert!(context.contains_key("MOCK_PLUGIN_ACTIVE"));
    assert_eq!(context.get("MOCK_PLUGIN_ACTIVE").unwrap(), "true");
}

#[test]
fn test_mock_plugin_post_execute_hook() {
    let result = MockPlugin::post_execute_hook("test command", 0);
    assert!(result.is_ok());
    let result_fail = MockPlugin::post_execute_hook("failing command", 1);
    assert!(result_fail.is_err());
}

#[test]
fn test_history_search() {
    let mut manager = HistoryManager::new(Some("/tmp/history.json"), None).with_max_entries(100);
    manager.add_entry(finished("docker ps", 0, 300)).unwrap();
    manager.add_entry(finished("docker images", 0, 250)).unwrap();
    manager.add_entry(finished("git commit", 0, 180)).unwrap();
    let results = manager.search("docker");
    assert_eq!(results.len(), 2);
    let git_results = manager.search("git");
    assert_eq!(git_results.len(), 1);
}

#[test]
fn test_history_clear() {
    let mut manager = HistoryManager::new(Some("/tmp/history.json"), None).with_max_entries(100);
    manager.add_entry(finished("test command", 0, 100)).unwrap();
    manager.add_entry(finished("another command", 0, 150)).unwrap();
    manager.clear_entries();
    let recent = manager.get_recent(10);
    assert!(recent.is_empty());
}

#[test]
fn test_context_creation_and_manipulation() {
    let mut context = StringMap::new();
    context.insert("TEST_KEY".to_string(), "test_value".to_string());
    context.insert("ANOTHER_KEY".to_string(), "another_value".to_string());
    assert_eq!(context.get("TEST_KEY").unwrap(), "test_value");
    assert_eq!(context.get("ANOTHER_KEY").unwrap(), "another_value");
    assert_eq!(context.len(), 2);
}

#[test]
fn test_ai_integration_creation() {
    let _ai = shally::ai::AiIntegration::new();
    assert!(true);
}

#[test]
fn test_error_types() {
    let config_err = ShallyError::ConfigNotFound("/nonexistent/path.yaml".to_string());
    assert!(config_err.message().contains("/nonexistent/path.yaml"));
    let parse_err = ShallyError::ConfigParseError("Invalid YAML".to_string());
    assert!(parse_err.message().contains("Invalid YAML"));
}

#[test]
fn test_resolve_config_path_explicit() {
    let candidates = config_path_candidates(Some("/tmp/explicit.yaml"), None, None);
    assert_eq!(candidates.len(), 1);
    assert!(!candidates[0].1);
    assert!(candidates[0].0.ends_with("explicit.yaml"));
}

#[test]
fn config_candidates_in_order() {
    let c = config_path_candidates(None, Some("/etc/s.yaml"), Some("/home/u"));
    assert_eq!(
        c,
        vec![
            ("/etc/s.yaml".to_string(), true),
            ("shally.yaml".to_string(), true),
            ("/home/u/.shally.yaml".to_string(), true),
        ]
    );
    let c = config_path_candidates(None, None, None);
    assert_eq!(c, vec![("shally.yaml".to_string(), true)]);
}

#[test]
fn error_messages() {
    assert_eq!(ShallyError::NetworkError("down".to_string()).message(), "Network error: down");
    assert_eq!(ShallyError::HookError("h".to_string()).message(), "Hook execution error: h");
    assert_eq!(ShallyError::AiError("a".to_string()).message(), "AI integration error: a");
    let io = ShallyError::from(std::io::Error::new(std::io::ErrorKind::Other, "disk"));
    assert!(io.message().starts_with("I/O error: "));
}

#[test]
fn shell_context_from_env_values() {
    let c = ShellContext::from_env_values(Some("/w"), Some("/usr/bin/zsh"));
    assert_eq!((c.cwd.as_str(), c.shell.as_str()), ("/w", "zsh"));
    let c = ShellContext::from_env_values(None, None);
    assert_eq!((c.cwd.as_str(), c.shell.as_str()), ("/", "bash"));
    let c = ShellContext::from_env_values(None, Some("fish"));
    assert_eq!(c.shell, "fish");
    let c = ShellContext::from_env_values(None, Some("/bin/"));
    assert_eq!(c.shell, "");
    let d = ShellContext::default();
    assert_eq!((d.cwd.as_str(), d.shell.as_str()), ("/", "bash"));
    let n = ShellContext::new("/x", "zsh");
    assert!(n.last_command.is_none() && n.exit_code.is_none());
}

#[test]
fn hook_commands_dispatch() {
    let base = PluginConfig::default();
    let r = handle_hook_commands(&args(&["shally", "--hook", "preexec", "ls -l"]), &base).unwrap().unwrap();
    assert_eq!(r.get("LAST_COMMAND"), Some(&"ls -l".to_string()));
    assert_eq!(r.get("EXIT_CODE"), Some(&"0".to_string()));
    let r = handle_hook_commands(&args(&["shally", "--fish-hook", "command_not_found"]), &base).unwrap().unwrap();
    assert_eq!(r.get("FAILED_COMMAND"), Some(&"".to_string()));
    let r = handle_hook_commands(&args(&["shally", "--bash-hook", "precmd"]), &base).unwrap().unwrap();
    assert_eq!(r.get("CURRENT_DIR"), Some(&"test/path".to_string()));
    let e = handle_hook_commands(&args(&["shally", "--hook", "bogus"]), &base).unwrap().unwrap_err();
    assert_eq!(e, "Unknown hook type: bogus");
    let e = handle_hook_commands(&args(&["shally", "--fish-hook", "bogus"]), &base).unwrap().unwrap_err();
    assert_eq!(e, "Unknown fish hook type: bogus");
    assert!(handle_hook_commands(&args(&["shally", "--hook"]), &base).is_none());
    assert!(handle_hook_commands(&args(&["shally"]), &base).is_none());
}

#[test]
fn install_commands() {
    let a = handle_install_commands(&args(&["shally", "--install"])).unwrap();
    assert_eq!(a, shally::zsh::generate_zshrc_snippet("shally"));
    let b = handle_install_commands(&args(&["shally", "--fish-install", "/opt/s"])).unwrap();
    assert_eq!(b, shally::fish::generate_config_snippet("/opt/s"));
    let c = handle_install_commands(&args(&["shally", "--bash-install"])).unwrap();
    assert_eq!(c, shally::bash::generate_bashrc_snippet("shally"));
    assert!(handle_install_commands(&args(&["shally", "--other"])).is_none());
}

#[test]
fn history_and_ai_config_commands() {
    let mut base = PluginConfig::default();
    base.settings.insert("history_file".to_string(), "/h.json".to_string());
    base.settings.insert("max_history".to_string(), "+25".to_string());
    let req = handle_history_commands(&args(&["shally", "--history", "recent", "x"]), &base).unwrap();
    assert!(matches!(req.action, HistoryAction::Recent(10)));
    assert_eq!(req.history_file, Some("/h.json".to_string()));
    assert_eq!(req.max_entries, 25);
    let req = handle_history_commands(&args(&["shally", "--history", "search"]), &base).unwrap();
    assert!(matches!(req.action, HistoryAction::Search(ref q) if q.is_empty()));
    let req = handle_history_commands(&args(&["shally", "--history", "what"]), &PluginConfig::default()).unwrap();
    assert!(matches!(req.action, HistoryAction::Usage));
    assert_eq!(req.max_entries, 1000);
    assert!(handle_history_commands(&args(&["shally", "--history"]), &base).is_none());
    let ai = handle_ai_config_command(&args(&["shally", "--ai-config"]), &base).unwrap();
    assert_eq!(ai.endpoint, "https://api.openai.com/v1/chat/completions");
    assert_eq!(ai.api_key, "");
    assert_eq!(ai.model, "gpt-3.5-turbo");
    assert_eq!(ai.max_history, 25);
    let ai = handle_ai_config_command(&args(&["shally", "--ai-config", "http://e", "k", "gpt-4"]), &base).unwrap();
    assert_eq!((ai.endpoint.as_str(), ai.api_key.as_str(), ai.model.as_str()), ("http://e", "k", "gpt-4"));
    assert!(handle_ai_config_command(&args(&["shally"]), &base).is_none());
}

#[test]
fn parse_usize_like_std() {
    for s in ["0", "42", "+7", "007", "18446744073709551615", "", "+", "-1", "1 ", "18446744073709551616", "9x"] {
        assert_eq!(parse_usize(s), s.parse::<usize>().ok(), "input {:?}", s);
    }
}

#[test]
fn home_config_path_is_dot_file_in_home() {
    assert_eq!(shally::config::home_config_path(Some("/home/u")), Some("/home/u/.shally.yaml".to_string()));
    assert_eq!(shally::config::home_config_path(None), None);
}
