use shally::bash;
use shally::fish;
use shally::plugin::mock_plugin::MockPlugin;
use shally::shell_core::{PluginConfig, ShellPlugin, StringMap};
use shally::starship::export_context;
use shally::zsh;

#[test]
fn test_zsh_precmd_hook() {
    let mut context = StringMap::new();
    let result = zsh::precmd::<MockPlugin>(&mut context);
    assert!(result.is_ok());
    assert_eq!(context.get("CURRENT_DIR"), Some(&"test/path".to_string()));
}

#[test]
fn test_zsh_preexec_hook() {
    let mut context = StringMap::new();
    let command = "echo hello";
    let exit_code = 0;
    let result = zsh::preexec::<MockPlugin>(command, exit_code, &mut context);
    assert!(result.is_ok());
    assert_eq!(context.get("LAST_COMMAND"), Some(&command.to_string()));
    assert_eq!(context.get("EXIT_CODE"), Some(&exit_code.to_string()));
}

#[test]
fn test_generate_zshrc_snippet() {
    let snippet = zsh::generate_zshrc_snippet("/usr/local/bin/shellai");
    assert!(snippet.contains("precmd_shellai"));
    assert!(snippet.contains("preexec_shellai"));
    assert!(snippet.contains("/usr/local/bin/shellai"));
    assert!(snippet.contains("precmd_functions"));
    assert!(snippet.contains("preexec_functions"));
}

#[test]
fn test_fish_prompt_hook() {
    let mut context = StringMap::new();
    let result = fish::prompt::<MockPlugin>(&mut context);
    assert!(result.is_ok());
    assert_eq!(context.get("CURRENT_DIR"), Some(&"test/path".to_string()));
}

#[test]
fn test_fish_command_not_found() {
    let mut context = StringMap::new();
    let result = fish::command_not_found::<MockPlugin>("nonexistent_cmd", &mut context);
    assert!(result.is_err());
    assert_eq!(context.get("FAILED_COMMAND"), Some(&"nonexistent_cmd".to_string()));
}

#[test]
fn test_generate_config_snippet() {
    let snippet = fish::generate_config_snippet("/usr/local/bin/shellai");
    assert!(snippet.contains("shellai_prompt"));
    assert!(snippet.contains("shellai_command_not_found"));
    assert!(snippet.contains("/usr/local/bin/shellai"));
    assert!(snippet.contains("fish_prompt"));
}

#[test]
fn test_bash_precmd_hook() {
    let mut context = StringMap::new();
    let result = bash::precmd::<MockPlugin>(&mut context);
    assert!(result.is_ok());
    assert_eq!(context.get("CURRENT_DIR"), Some(&"test/path".to_string()));
}

#[test]
fn test_bash_preexec_hook() {
    let mut context = StringMap::new();
    let command = "echo hello";
    let exit_code = 0;
    let result = bash::preexec::<MockPlugin>(command, exit_code, &mut context);
    assert!(result.is_ok());
    assert_eq!(context.get("LAST_COMMAND"), Some(&command.to_string()));
    assert_eq!(context.get("EXIT_CODE"), Some(&exit_code.to_string()));
}

#[test]
fn test_generate_bashrc_snippet() {
    let snippet = bash::generate_bashrc_snippet("/usr/local/bin/shally");
    assert!(snippet.contains("shally_precmd"));
    assert!(snippet.contains("shally_preexec"));
    assert!(snippet.contains("/usr/local/bin/shally"));
    assert!(snippet.contains("PROMPT_COMMAND"));
    assert!(snippet.contains("DEBUG"));
    assert!(snippet.contains("trap"));
}

#[test]
fn test_plugin_lifecycle() {
    let config = PluginConfig { shell_name: "zsh".to_string(), settings: StringMap::new() };
    assert!(MockPlugin::initialize(&config).is_ok());
    let mut context = StringMap::new();
    assert!(MockPlugin::pre_prompt_hook(&mut context).is_ok());
    assert!(context.contains_key("CURRENT_DIR"));
    assert_eq!(context.get("CURRENT_DIR").unwrap(), "test/path");
    assert!(MockPlugin::post_execute_hook("ls -l", 0).is_ok());
}

#[test]
fn test_export_context() {
    let mut context = StringMap::new();
    context.insert("CURRENT_DIR".to_string(), "/home/user".to_string());
    context.insert("GIT_BRANCH".to_string(), "main".to_string());
    let exports = export_context(&context);
    assert_eq!(exports.len(), 2);
    let find = |k: &str| exports.iter().find(|(key, _)| key == k).map(|(_, v)| v.clone());
    assert_eq!(find("SHELLAI_CURRENT_DIR"), Some("/home/user".to_string()));
    assert_eq!(find("SHELLAI_GIT_BRANCH"), Some("main".to_string()));
}

#[test]
fn export_uppercases_keys_and_keeps_order() {
    let mut context = StringMap::new();
    context.insert("pwd".to_string(), "/a".to_string());
    context.insert("Git".to_string(), "dev".to_string());
    let exports = export_context(&context);
    assert_eq!(exports, vec![("SHELLAI_PWD".to_string(), "/a".to_string()), ("SHELLAI_GIT".to_string(), "dev".to_string())]);
}

#[test]
fn zsh_snippet_is_exact() {
    let snippet = zsh::generate_zshrc_snippet("sh1");
    let expected = format!(
        r#"# ShellAI Framework - Zsh Integration
# Add this to your ~/.zshrc to enable ShellAI hooks

# Load shellai binary on precmd
precmd_shellai() {{
    {binary_path} --hook precmd
}}

# Load shellai binary on preexec
preexec_shellai() {{
    {binary_path} --hook preexec "$1"
}}

autoload -Uz precmd_functions
autoload -Uz preexec_functions

precmd_functions+=(precmd_shellai)
preexec_functions+=(preexec_shellai)
"#,
        binary_path = "sh1"
    );
    assert_eq!(snippet, expected);
}

#[test]
fn bash_and_fish_snippets_are_exact() {
    let expected_bash = format!(
        r#"# Shally Framework - Bash Integration
# Add this to your ~/.bashrc to enable Shally hooks

# Pre-prompt hook (runs before each prompt)
shally_precmd() {{
    {binary_path} --bash-hook precmd
}}

# Pre-execution hook (runs before each command)
shally_preexec() {{
    {binary_path} --bash-hook preexec "$BASH_COMMAND"
}}

# Store the previous PROMPT_COMMAND if it exists
if [ -n "$PROMPT_COMMAND" ]; then
    shally_old_precmd="$PROMPT_COMMAND"
fi

# Set up PROMPT_COMMAND to run our hook
PROMPT_COMMAND="shally_precmd"

# Set up DEBUG trap for pre-execution
trap 'shally_preexec' DEBUG
"#,
        binary_path = "/b"
    );
    assert_eq!(bash::generate_bashrc_snippet("/b"), expected_bash);
    let expected_fish = format!(
        r#"# ShellAI Framework - Fish Integration
# Add this to your ~/.config/fish/config.fish to enable ShellAI hooks

# Pre-prompt hook
function shellai_prompt
    {binary_path} --fish-hook prompt
end

# Command not found handler
function shellai_command_not_found
    {binary_path} --fish-hook command_not_found $argv[1]
end

# Register the prompt hook
fish_prompt += shellai_prompt
"#,
        binary_path = "/f"
    );
    assert_eq!(fish::generate_config_snippet("/f"), expected_fish);
}

#[test]
fn preexec_records_negative_exit_code_and_fails() {
    let mut context = StringMap::new();
    context.insert("EXIT_CODE".to_string(), "0".to_string());
    let result = zsh::preexec::<MockPlugin>("false", -2147483648, &mut context);
    assert_eq!(result, Err("Command failed with code -2147483648".to_string()));
    assert_eq!(context.get("EXIT_CODE"), Some(&"-2147483648".to_string()));
    assert_eq!(context.len(), 2);
}

#[test]
fn mock_plugin_rejects_empty_shell() {
    let config = PluginConfig { shell_name: String::new(), settings: StringMap::new() };
    assert_eq!(MockPlugin::initialize(&config), Err("Configuration must specify a shell.".to_string()));
    assert_eq!(MockPlugin::name(), "mock_plugin");
}

#[test]
fn string_map_read_after_write() {
    let mut m = StringMap::new();
    assert_eq!(m.insert("a".to_string(), "1".to_string()), None);
    assert_eq!(m.insert("b".to_string(), "2".to_string()), None);
    assert_eq!(m.insert("a".to_string(), "3".to_string()), Some("1".to_string()));
    assert_eq!(m.get("a"), Some(&"3".to_string()));
    assert_eq!(m.get("b"), Some(&"2".to_string()));
    assert_eq!(m.get("c"), None);
    assert_eq!(m.len(), 2);
    let (k, v) = m.pair(0);
    assert_eq!((k.as_str(), v.as_str()), ("a", "3"));
}

#[test]
fn plugin_default_methods() {
    let ctx = shally::shell_core::ShellContext::new("/tmp", "zsh");
    assert_eq!(MockPlugin::version(), "0.1.0");
    assert_eq!(MockPlugin::preexec(&ctx, "ls"), None);
    assert_eq!(MockPlugin::handle_not_found(&ctx, "gti"), None);
    assert_eq!(MockPlugin::handle_error(&ctx, "permission denied"), None);
    MockPlugin::precmd(&ctx);
}
