use coworkany::policy::commands::{ConfirmEffectInput, DenyEffectInput, PolicyEngineState};
use coworkany::policy::engine::{PolicyDecision, PolicyEngine};
use coworkany::policy::types::{
    ConfirmationPolicy, EffectPayload, EffectRequest, EffectSource, EffectType, PolicyConfig,
    PolicyLists,
};

fn request(id: &str, effect_type: EffectType, path: Option<&str>) -> EffectRequest {
    let mut payload = EffectPayload::default();
    payload.path = path.map(|p| p.to_string());
    if effect_type == EffectType::FilesystemWrite {
        payload.operation = Some("modify".to_string());
    }
    EffectRequest {
        id: id.to_string(),
        timestamp: "2024-01-01T00:00:00Z".to_string(),
        effect_type,
        source: EffectSource::Agent,
        source_id: None,
        payload,
        context: None,
        scope: None,
    }
}

#[test]
fn evaluate_is_pure_over_config_and_request() {
    let engine = PolicyEngine::new(PolicyConfig::default_config());
    let r = request("r1", EffectType::FilesystemWrite, Some("/w/a.txt"));
    let o1 = engine.evaluate(&r);
    let o2 = engine.evaluate(&r);
    match (&o1.decision, &o2.decision) {
        (
            PolicyDecision::RequiresUserConfirmation { policy: p1, .. },
            PolicyDecision::RequiresUserConfirmation { policy: p2, .. },
        ) => assert_eq!(p1, p2),
        _ => panic!("both evaluations must ask for confirmation"),
    }
    assert_eq!(o1.request_id, o2.request_id);
}

#[test]
fn auto_approved_read() {
    // filesystem reads never ask under the default posture
    let mut state = PolicyEngineState::new();
    let out = state.request_effect(request("r1", EffectType::FilesystemRead, Some("/w/a.txt")));
    assert!(out.response.approved);
    assert_eq!(out.response.approval_type, Some(ConfirmationPolicy::Never));
    assert!(out.confirmation.is_none());
    assert_eq!(out.audit.event_type, "request");
    assert!(state.get_pending_confirmations().is_empty());
}

#[test]
fn confirmation_then_approve() {
    // a filesystem write always asks; the prompt carries the risk level
    let mut state = PolicyEngineState::new();
    let out = state.request_effect(request("r2", EffectType::FilesystemWrite, Some("/w/a.txt")));
    assert!(!out.response.approved);
    assert_eq!(out.response.denial_reason.as_deref(), Some("awaiting_confirmation"));
    let prompt = out.confirmation.expect("a prompt must be surfaced");
    assert_eq!(prompt.risk_level, 70);
    assert_eq!(prompt.effect_type, "filesystem:write");
    assert_eq!(prompt.policy, "always");
    assert_eq!(prompt.source, "agent");
    assert_eq!(state.get_pending_confirmations().len(), 1);

    let confirmed = state
        .confirm_effect(ConfirmEffectInput { request_id: "r2".to_string(), remember: false })
        .expect("the first confirm must succeed");
    assert!(confirmed.0.approved);
    assert_eq!(confirmed.0.approval_type, Some(ConfirmationPolicy::Always));
    assert_eq!(confirmed.1.event_type, "confirmed");
    assert!(state.get_pending_confirmations().is_empty());

    let second = state
        .confirm_effect(ConfirmEffectInput { request_id: "r2".to_string(), remember: false });
    assert!(second.is_err());
    assert!(second.unwrap_err().contains("No pending confirmation found"));
}

#[test]
fn exactly_one_of_confirm_or_deny_succeeds() {
    let mut state = PolicyEngineState::new();
    state.request_effect(request("r3", EffectType::ShellWrite, None));
    let denied = state
        .deny_effect(DenyEffectInput { request_id: "r3".to_string(), reason: None })
        .expect("the first deny must succeed");
    assert!(!denied.0.approved);
    assert_eq!(denied.0.denial_code.as_deref(), Some("user_denied"));
    assert_eq!(denied.0.denial_reason.as_deref(), Some("user_denied"));
    assert_eq!(denied.1.event_type, "denied");
    assert!(state
        .confirm_effect(ConfirmEffectInput { request_id: "r3".to_string(), remember: false })
        .is_err());
    assert!(state
        .deny_effect(DenyEffectInput { request_id: "r3".to_string(), reason: None })
        .is_err());
}

#[test]
fn denied_effect_type_is_blocked() {
    // secrets are denied outright under the default posture
    let mut state = PolicyEngineState::new();
    let out = state.request_effect(request("r4", EffectType::SecretsRead, None));
    assert!(!out.response.approved);
    assert_eq!(out.response.denial_code.as_deref(), Some("policy_blocked"));
    assert_eq!(out.response.denial_reason.as_deref(), Some("effect type denied by policy"));
}

#[test]
fn blocklisted_path_is_denied() {
    let mut config = PolicyConfig::default_config();
    config.blocklists = PolicyLists {
        commands: vec![],
        domains: vec![],
        paths: vec!["/etc".to_string()],
    };
    let engine = PolicyEngine::new(config);
    let outcome = engine.evaluate(&request("r5", EffectType::FilesystemRead, Some("/etc/passwd")));
    match &outcome.decision {
        PolicyDecision::Denied { reason, code } => {
            assert_eq!(reason, "request blocked by policy lists");
            assert_eq!(code, "policy_blocked");
        }
        _ => panic!("a blocklisted path must be denied"),
    }
}

#[test]
fn blocklisted_command_prefix_is_denied() {
    let mut config = PolicyConfig::default_config();
    config.blocklists = PolicyLists {
        commands: vec!["git".to_string()],
        domains: vec![],
        paths: vec![],
    };
    let engine = PolicyEngine::new(config);
    let mut r = request("r6", EffectType::ShellWrite, None);
    r.payload.command = Some("git push --force".to_string());
    match engine.evaluate(&r).decision {
        PolicyDecision::Denied { .. } => {}
        _ => panic!("a blocklisted command prefix must be denied"),
    }
}

#[test]
fn allowlists_are_injected_into_scope() {
    let mut config = PolicyConfig::default_config();
    config.allowlists = PolicyLists {
        commands: vec!["git".to_string()],
        domains: vec![],
        paths: vec![],
    };
    let engine = PolicyEngine::new(config);
    let outcome = engine.evaluate(&request("r7", EffectType::ShellWrite, None));
    match outcome.decision {
        PolicyDecision::RequiresUserConfirmation { modified_scope, .. } => {
            let scope = modified_scope.expect("a narrowed scope must be attached");
            assert_eq!(scope.command_allowlist, Some(vec!["git".to_string()]));
        }
        _ => panic!("a shell write must ask for confirmation"),
    }
}

#[test]
fn effect_type_names() {
    assert_eq!(EffectType::FilesystemRead.as_str(), "filesystem:read");
    assert_eq!(EffectType::FilesystemWrite.as_str(), "filesystem:write");
    assert_eq!(EffectType::ShellRead.as_str(), "shell:read");
    assert_eq!(EffectType::ShellWrite.as_str(), "shell:write");
    assert_eq!(EffectType::NetworkOutbound.as_str(), "network:outbound");
    assert_eq!(EffectType::SecretsRead.as_str(), "secrets:read");
    assert_eq!(EffectType::ScreenCapture.as_str(), "screen:capture");
    assert_eq!(EffectType::UiControl.as_str(), "ui:control");
}
