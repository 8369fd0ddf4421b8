use shally::ai::{AiIntegration, SuggestStep};
use shally::history::HistoryEntry;
use shally::shell_core::StringMap;

fn entry(command: &str, exit_code: i32, duration_ms: u64) -> HistoryEntry {
    HistoryEntry { command: command.to_string(), exit_code, duration_ms, timestamp: 1_700_000_000, ai_suggestion: None }
}

#[test]
fn test_ai_not_configured() {
    let ai = AiIntegration::new();
    let context = StringMap::new();
    let history = vec![entry("ls -la", 0, 12)];
    let result = ai.suggest_command(&context, &history, false);
    assert!(result.is_err());
}

#[test]
fn test_build_prompt() {
    let ai = AiIntegration::new();
    let mut context = StringMap::new();
    context.insert("PWD".to_string(), "/home/user".to_string());
    let history = vec![entry("ls", 0, 5), entry("cd /tmp", 0, 1)];
    let prompt = ai.build_prompt(&context, &history);
    assert!(prompt.contains("PWD=/home/user"));
    assert!(prompt.contains("ls"));
    assert!(prompt.contains("cd /tmp"));
}

#[test]
fn test_with_model() {
    let mut integration = AiIntegration::new();
    integration.with_config("https://api.openai.com/v1/chat/completions", "test-key").with_model("gpt-4");
    assert_eq!(integration.model(), "gpt-4");
}

#[test]
fn test_local_model_variants() {
    let variants = ["local-llm-v1", "local-xl"];
    for &name in variants.iter() {
        let mut ai = AiIntegration::new();
        ai.with_local_model("http://localhost:1234/v1/chat/completions");
        ai.with_model(name);
        let context = StringMap::new();
        let history = vec![entry("echo hi", 0, 3)];
        let result = ai.suggest_command(&context, &history, false);
        assert!(result.is_ok());
        match result.unwrap() {
            SuggestStep::Ready(suggestion) => assert_eq!(suggestion.command, "echo local-suggestion"),
            SuggestStep::Send(_) => panic!("a local model answers without a request"),
        }
    }
}

#[test]
fn test_cli_config_endpoint_and_key() {
    let mut integration = AiIntegration::new();
    integration.with_config("https://api.custom.com/v1/chat", "my-secret-key");
    assert_eq!(integration.api_endpoint(), Some(&"https://api.custom.com/v1/chat".to_string()));
    assert_eq!(integration.api_key(), Some(&"my-secret-key".to_string()));
}

#[test]
fn test_suggest_command_after_config() {
    let mut integration = AiIntegration::new();
    integration.with_config("https://api.openai.com/v1/chat/completions", "test-key").with_model("gpt-4");
    let context = StringMap::new();
    let history = vec![entry("ls", 0, 5), entry("cd /home", 0, 1)];
    let result = integration.suggest_command(&context, &history, true);
    assert!(result.is_ok());
    match result.unwrap() {
        SuggestStep::Ready(suggestion) => assert_eq!(suggestion.command, "echo test-mode"),
        SuggestStep::Send(_) => panic!("test mode answers without a request"),
    }
}

#[test]
fn test_default_model_is_gpt_3_5() {
    let integration = AiIntegration::new();
    assert_eq!(integration.model(), "gpt-3.5-turbo");
}

#[test]
fn test_config_requires_endpoint() {
    let mut integration = AiIntegration::new();
    integration.with_config("", "some-key");
    let context = StringMap::new();
    let result = integration.suggest_command(&context, &[], false);
    assert!(result.is_err());
}

#[test]
fn test_config_requires_api_key() {
    let mut integration = AiIntegration::new();
    integration.with_config("https://api.openai.com/v1/chat/completions", "");
    let context = StringMap::new();
    let result = integration.suggest_command(&context, &[], false);
    assert!(result.is_err());
}

#[test]
fn test_local_model_no_auth_required() {
    let mut integration = AiIntegration::new();
    integration.with_local_model("http://localhost:11434/v1/chat/completions");
    assert!(integration.api_key().is_none());
    assert!(!integration.require_auth());
    assert_eq!(integration.api_endpoint(), Some(&"http://localhost:11434/v1/chat/completions".to_string()));
}

#[test]
fn test_local_model_suggest_command_no_api_key_error() {
    let mut integration = AiIntegration::new();
    integration.with_local_model("http://localhost:11434/v1/chat/completions");
    let context = StringMap::new();
    let history = vec![entry("ls", 0, 5)];
    let result = integration.suggest_command(&context, &history, true);
    assert!(result.is_ok());
    let cmd = match result.unwrap() {
        SuggestStep::Ready(suggestion) => suggestion.command,
        SuggestStep::Send(request) => request.prompt,
    };
    assert!(cmd == "echo test-mode" || cmd == "echo local-suggestion");
}

#[test]
fn test_with_local_model_sets_require_auth_false() {
    let mut integration = AiIntegration::new();
    assert!(integration.require_auth());
    integration.with_local_model("http://localhost:8080/v1");
    assert!(!integration.require_auth());
}

#[test]
fn test_local_model_empty_endpoint_rejected() {
    let mut integration = AiIntegration::new();
    integration.with_local_model("");
    let context = StringMap::new();
    let result = integration.suggest_command(&context, &[], false);
    assert!(result.is_err());
    assert!(result.unwrap_err().contains("endpoint"));
}

#[test]
fn test_require_auth_defaults_to_true() {
    let integration = AiIntegration::new();
    assert!(integration.require_auth());
}

#[test]
fn remote_request_carries_prompt_and_key() {
    let mut integration = AiIntegration::new();
    integration.with_config("https://api.example.com/v1/chat", "k-1");
    let mut context = StringMap::new();
    context.insert("PWD".to_string(), "/srv".to_string());
    context.insert("USER".to_string(), "ann".to_string());
    let history = vec![entry("make", 2, 1500), entry("ls", 0, 7)];
    match integration.suggest_command(&context, &history, false).unwrap() {
        SuggestStep::Send(request) => {
            assert_eq!(request.endpoint, "https://api.example.com/v1/chat");
            assert_eq!(request.model, "gpt-3.5-turbo");
            assert_eq!(request.bearer_token, Some("k-1".to_string()));
            assert_eq!(
                request.prompt,
                "You are a shell command assistant. Based on the following context and command history, suggest the next terminal command.\n\nContext: PWD=/srv, USER=ann\nCommand History: [exit=2, 1500ms] make; [exit=0, 7ms] ls\n\nRespond with ONLY the command to execute, nothing else."
            );
        }
        SuggestStep::Ready(_) => panic!("a remote model needs a request"),
    }
}

#[test]
fn remote_request_without_auth_has_no_token() {
    let mut integration = AiIntegration::new();
    integration.with_local_model("http://localhost:8080/v1").with_model("llama");
    match integration.suggest_command(&StringMap::new(), &[], false).unwrap() {
        SuggestStep::Send(request) => {
            assert_eq!(request.bearer_token, None);
            assert_eq!(request.model, "llama");
        }
        SuggestStep::Ready(_) => panic!("a remote model needs a request"),
    }
}

#[test]
fn config_errors_are_distinguished() {
    let ai = AiIntegration::new();
    let ctx = StringMap::new();
    assert_eq!(ai.suggest_command(&ctx, &[], false).unwrap_err(), "API endpoint not set. Call with_config() first.");
    let mut ai = AiIntegration::new();
    ai.with_config("x", "");
    assert_eq!(
        ai.suggest_command(&ctx, &[], false).unwrap_err(),
        "API endpoint or key is empty. Configure with_config() first."
    );
    let mut ai = AiIntegration::new();
    ai.with_local_model("");
    assert_eq!(ai.suggest_command(&ctx, &[], false).unwrap_err(), "API endpoint is empty. Configure with_config() first.");
}

#[test]
fn local_model_detection_ignores_case() {
    let mut ai = AiIntegration::new();
    assert!(!ai.is_local_model());
    ai.with_model("LocalBig");
    assert!(ai.is_local_model());
    ai.with_model("my-local");
    assert!(!ai.is_local_model());
}

#[test]
fn suggestion_from_reply_is_trimmed() {
    let mut ai = AiIntegration::new();
    ai.with_config("https://e", "k");
    let s = ai.suggestion_from_choices(&vec!["  ls -la \n".to_string(), "pwd".to_string()]).unwrap();
    assert_eq!(s.command, "ls -la");
    assert_eq!(s.confidence_percent, 85);
    assert!(s.explanation.is_none());
    assert!(s.ai_command.is_none());
    assert_eq!(ai.suggestion_from_choices(&vec![]).unwrap_err(), "No choices in response");
    ai.with_model("local-x");
    let s = ai.suggestion_from_choices(&vec![" echo hi ".to_string()]).unwrap();
    assert_eq!(s.ai_command, Some("shally-ai:echo hi".to_string()));
}
