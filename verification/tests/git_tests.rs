use coworkany::git::{split_char, str_trim, GitManager};
use coworkany::ipc::{llm_validation_plan, AnthropicProviderSettings, ValidateLlmInput};
use coworkany::process::{ServiceConfig, ServiceStatus};

#[test]
fn porcelain_status_lines_parse() {
    let out = " M src/main.rs\n?? notes.txt\nA  new.rs\n";
    let entries = GitManager::new().status(out);
    assert_eq!(entries.len(), 3);
    assert_eq!(entries[0].status, "M");
    assert_eq!(entries[0].file, "src/main.rs");
    assert_eq!(entries[1].status, "??");
    assert_eq!(entries[1].file, "notes.txt");
    assert_eq!(entries[2].status, "A");
    assert_eq!(entries[2].file, "new.rs");
}

#[test]
fn short_lines_are_skipped() {
    let entries = GitManager::new().status("ok\n M a\n");
    assert_eq!(entries.len(), 1);
    assert_eq!(entries[0].file, "a");
}

#[test]
fn log_lines_parse_and_keep_separators_in_messages() {
    let out = "abc123|Ada|2024-01-01|fix: a|b in the parser\ndef456|Grace|2024-01-02|tidy\nbroken line\n";
    let commits = GitManager::new().log(out);
    assert_eq!(commits.len(), 2);
    assert_eq!(commits[0].hash, "abc123");
    assert_eq!(commits[0].author, "Ada");
    assert_eq!(commits[0].date, "2024-01-01");
    assert_eq!(commits[0].message, "fix: a|b in the parser");
    assert_eq!(commits[1].message, "tidy");
}

#[test]
fn split_keeps_empty_pieces() {
    let parts = split_char("a||b|", '|');
    assert_eq!(parts, vec!["a", "", "b", ""]);
    assert_eq!(split_char("", '|'), vec![""]);
}

#[test]
fn trim_strips_blanks() {
    assert_eq!(str_trim("  x \t"), "x");
    assert_eq!(str_trim("   "), "");
    assert_eq!(str_trim("a b"), "a b");
}

#[test]
fn validation_plan_picks_the_endpoint() {
    let plan = llm_validation_plan(&ValidateLlmInput {
        provider: "anthropic".to_string(),
        anthropic: Some(AnthropicProviderSettings {
            api_key: Some("k".to_string()),
            model: None,
        }),
        openrouter: None,
        custom: None,
    })
    .unwrap();
    assert_eq!(plan.url, "https://api.anthropic.com/v1/messages");
    assert_eq!(plan.model, "latest");
    assert!(plan.vendor_header);
}

#[test]
fn validation_plan_reports_missing_settings() {
    let err = llm_validation_plan(&ValidateLlmInput {
        provider: "anthropic".to_string(),
        anthropic: None,
        openrouter: None,
        custom: None,
    })
    .unwrap_err();
    assert_eq!(err, "Missing Anthropic settings");
    let err = llm_validation_plan(&ValidateLlmInput {
        provider: "other".to_string(),
        anthropic: None,
        openrouter: None,
        custom: None,
    })
    .unwrap_err();
    assert_eq!(err, "Unknown provider: other");
}

#[test]
fn default_service_config() {
    let config = ServiceConfig::default();
    assert!(config.enabled && config.auto_start && config.auto_restart);
    assert_eq!(config.health_check_interval_secs, 30);
    assert_eq!(config.startup_timeout_secs, 60);
    assert_eq!(config.max_restart_attempts, 3);
    assert_ne!(ServiceStatus::Running, ServiceStatus::Stopped);
}
