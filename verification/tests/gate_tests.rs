use coworkany::gate::{
    AgentIdentity, AuditWriter, Decision, EffectPayload, EffectRequest, EffectSource, EffectType,
    PolicyEngine, WriteMode,
};

fn identity(session: &str, capabilities: Vec<EffectType>) -> AgentIdentity {
    AgentIdentity {
        session_id: session.to_string(),
        parent_session: None,
        user_id: "u".to_string(),
        created_at: 0,
        capabilities,
        ephemeral: false,
    }
}

fn shell_request(session: &str, command: &str) -> EffectRequest {
    EffectRequest {
        request_id: "r".to_string(),
        session_id: session.to_string(),
        source: EffectSource::Agent,
        source_id: "s".to_string(),
        effect: EffectPayload::ShellWrite {
            command: command.to_string(),
            cwd: None,
            env: None,
            timeout_ms: 1000,
        },
        risk_score: None,
        justification: None,
    }
}

fn engine_with(session: &str, capabilities: Vec<EffectType>) -> PolicyEngine {
    let mut engine = PolicyEngine::new(AuditWriter::new("/tmp/audit.log".to_string()));
    engine.register_session(identity(session, capabilities));
    engine
}

#[test]
fn unknown_session_is_denied() {
    let engine = PolicyEngine::new(AuditWriter::new("a.log".to_string()));
    let d = engine.evaluate(&shell_request("nobody", "git status"));
    assert_eq!(d.decision, Decision::Deny);
    assert_eq!(d.reason.as_deref(), Some("Unknown session"));
}

#[test]
fn missing_capability_is_denied() {
    let engine = engine_with("s1", vec![EffectType::FilesystemRead]);
    let d = engine.evaluate(&shell_request("s1", "git status"));
    assert_eq!(d.decision, Decision::Deny);
    assert_eq!(d.reason.as_deref(), Some("Session lacks capability"));
}

#[test]
fn denied_fragment_blocks_the_command() {
    let engine = engine_with("s1", vec![EffectType::ShellWrite]);
    let d = engine.evaluate(&shell_request("s1", "sudo make install"));
    assert_eq!(d.decision, Decision::Deny);
    assert_eq!(d.reason.as_deref(), Some("Blocked command pattern: sudo"));
}

#[test]
fn command_outside_allowlist_is_denied() {
    let engine = engine_with("s1", vec![EffectType::ShellWrite]);
    let d = engine.evaluate(&shell_request("s1", "curl http://x"));
    assert_eq!(d.decision, Decision::Deny);
    assert_eq!(d.reason.as_deref(), Some("Command not in allowlist: curl"));
}

#[test]
fn allowed_shell_command_asks_with_its_risk_score() {
    // a shell write scores eighty: denied by risk
    let engine = engine_with("s1", vec![EffectType::ShellWrite]);
    let d = engine.evaluate(&shell_request("s1", "git status"));
    assert_eq!(d.decision, Decision::Deny);
    assert_eq!(d.reason.as_deref(), Some("Risk score: 80"));
    let restrictions = d.scope_restrictions.expect("shell commands carry restrictions");
    assert_eq!(
        restrictions.allowlist,
        Some(vec!["git".to_string(), "npm".to_string(), "cargo".to_string(), "python".to_string()])
    );
    assert_eq!(restrictions.denylist, Some(vec!["rm -rf /".to_string(), "sudo".to_string()]));
}

#[test]
fn shadow_write_asks_for_confirmation() {
    let engine = engine_with("s1", vec![EffectType::FilesystemWrite]);
    let d = engine.evaluate(&EffectRequest {
        request_id: "r".to_string(),
        session_id: "s1".to_string(),
        source: EffectSource::Agent,
        source_id: "s".to_string(),
        effect: EffectPayload::FilesystemWrite {
            mode: WriteMode::Shadow,
            target_path: "/w/main.py".to_string(),
            content: None,
            patch: None,
            backup: false,
        },
        risk_score: None,
        justification: None,
    });
    // base thirty, but a filesystem write is a sensitive type
    assert_eq!(d.decision, Decision::ConfirmRequired);
    assert_eq!(d.reason.as_deref(), Some("Risk score: 30"));
}

#[test]
fn remembered_approval_covers_rust_files() {
    let mut engine = engine_with("s1", vec![EffectType::FilesystemWrite]);
    let now = std::time::SystemTime::now()
        .duration_since(std::time::UNIX_EPOCH)
        .map(|d| d.as_secs())
        .unwrap_or(0);
    engine
        .approve_with_memory("r0".to_string(), "s1".to_string(), true, now)
        .unwrap();
    let d = engine.evaluate(&EffectRequest {
        request_id: "r".to_string(),
        session_id: "s1".to_string(),
        source: EffectSource::Agent,
        source_id: "s".to_string(),
        effect: EffectPayload::FilesystemWrite {
            mode: WriteMode::Shadow,
            target_path: "/w/lib.rs".to_string(),
            content: None,
            patch: None,
            backup: false,
        },
        risk_score: None,
        justification: None,
    });
    assert_eq!(d.decision, Decision::Approve);
    assert_eq!(d.reason.as_deref(), Some("Auto-approved (session pattern)"));
}

#[test]
fn domain_outside_allowlist_is_denied() {
    let engine = engine_with("s1", vec![EffectType::NetworkOutbound]);
    let d = engine.evaluate(&EffectRequest {
        request_id: "r".to_string(),
        session_id: "s1".to_string(),
        source: EffectSource::Agent,
        source_id: "s".to_string(),
        effect: EffectPayload::NetworkOutbound {
            url: "https://evil.example/x".to_string(),
            method: "GET".to_string(),
            headers: None,
            body: None,
        },
        risk_score: None,
        justification: None,
    });
    assert_eq!(d.decision, Decision::Deny);
    assert_eq!(d.reason.as_deref(), Some("Domain not in allowlist: evil.example"));
}

#[test]
fn allowed_domain_asks_by_risk() {
    let engine = engine_with("s1", vec![EffectType::NetworkOutbound]);
    let d = engine.evaluate(&EffectRequest {
        request_id: "r".to_string(),
        session_id: "s1".to_string(),
        source: EffectSource::Agent,
        source_id: "s".to_string(),
        effect: EffectPayload::NetworkOutbound {
            url: "https://api.github.com/repos".to_string(),
            method: "GET".to_string(),
            headers: None,
            body: None,
        },
        risk_score: None,
        justification: None,
    });
    // network scores forty: ask the user
    assert_eq!(d.decision, Decision::ConfirmRequired);
    assert_eq!(d.reason.as_deref(), Some("Risk score: 40"));
}

#[test]
fn declared_risk_adds_half() {
    let engine = engine_with("s1", vec![EffectType::NetworkOutbound]);
    let mut r = EffectRequest {
        request_id: "r".to_string(),
        session_id: "s1".to_string(),
        source: EffectSource::Toolpack,
        source_id: "s".to_string(),
        effect: EffectPayload::NetworkOutbound {
            url: "https://api.github.com/repos".to_string(),
            method: "GET".to_string(),
            headers: None,
            body: None,
        },
        risk_score: Some(100),
        justification: None,
    };
    // forty base, ten for the toolpack source, fifty declared halved
    assert_eq!(engine.calculate_risk(&r), 100);
    r.risk_score = Some(20);
    assert_eq!(engine.calculate_risk(&r), 60);
}

#[test]
fn remembering_appends_one_pattern_per_approval() {
    let mut engine = engine_with("s1", vec![EffectType::FilesystemWrite]);
    engine.approve_with_memory("r1".to_string(), "s1".to_string(), true, 1000).unwrap();
    engine.approve_with_memory("r2".to_string(), "s1".to_string(), true, 2000).unwrap();
    let patterns = engine
        .session_approvals
        .iter()
        .find(|(sid, _)| sid == "s1")
        .map(|(_, p)| p.clone())
        .expect("the session must hold patterns");
    assert_eq!(patterns.len(), 2);
    assert_eq!(patterns[0].pattern, "**/*.rs");
    assert_eq!(patterns[0].expires_at, 4600);
    assert_eq!(patterns[1].expires_at, 5600);
    // not remembering changes nothing
    engine.approve_with_memory("r3".to_string(), "s1".to_string(), false, 3000).unwrap();
    assert_eq!(engine.session_approvals.len(), 1);
}

#[test]
fn audit_lines_name_the_request() {
    let writer = AuditWriter::new("a.log".to_string());
    let request = shell_request("s1", "git status");
    let decision = coworkany::gate::PolicyDecision {
        request_id: "r".to_string(),
        decision: Decision::Deny,
        reason: None,
        scope_restrictions: None,
        auto_approve_similar: false,
    };
    assert_eq!(writer.log_decision(&request, &decision), "AUDIT: r -> deny");
    assert_eq!(writer.log_auto_approval(&request), "AUDIT: Auto-approved r");
    assert_eq!(writer.log_execution("r", "ok"), "AUDIT: Executed r -> ok");
}
