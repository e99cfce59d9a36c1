use coworkany::dispatch::{
    build_effect_request_for_patch, build_file_patch, convert_patch_operation, AgentCommand,
    DispatchContext, DispatchReply, Dispatcher, ProtocolDiffHunk, ProtocolFilePatch,
    ProtocolPatchOperation,
};
use coworkany::diff::PatchOperation;
use coworkany::policy::commands::PolicyEngineState;
use coworkany::policy::types::{EffectPayload, EffectRequest, EffectSource, EffectType};
use coworkany::shadow::{DiskSnapshot, ShadowFs};

fn dispatcher() -> Dispatcher {
    Dispatcher { policy: PolicyEngineState::new(), shadow: ShadowFs::new("/w".to_string()) }
}

fn ctx(current: Option<&str>, disk_original: Option<&str>, shadow: Option<&str>) -> DispatchContext {
    DispatchContext {
        source_content: current.map(|s| s.to_string()),
        stage_content: current.map(|s| s.to_string()),
        disk: DiskSnapshot {
            original_content: disk_original.map(|s| s.to_string()),
            shadow_content: shadow.map(|s| s.to_string()),
            target_exists: false,
        },
    }
}

fn wire_patch(operation: ProtocolPatchOperation, full: Option<&str>) -> ProtocolFilePatch {
    ProtocolFilePatch {
        id: "p1".to_string(),
        timestamp: "2024-01-01T00:00:00Z".to_string(),
        file_path: "/w/a.txt".to_string(),
        operation,
        new_file_path: None,
        hunks: vec![],
        full_content: full.map(|s| s.to_string()),
        additions: 0,
        deletions: 0,
        description: None,
    }
}

#[test]
fn conversion_keeps_the_operation() {
    assert_eq!(convert_patch_operation(ProtocolPatchOperation::Create), PatchOperation::Create);
    assert_eq!(convert_patch_operation(ProtocolPatchOperation::Modify), PatchOperation::Modify);
    assert_eq!(convert_patch_operation(ProtocolPatchOperation::Delete), PatchOperation::Delete);
    assert_eq!(convert_patch_operation(ProtocolPatchOperation::Rename), PatchOperation::Rename);
}

#[test]
fn wire_hunks_get_an_empty_header() {
    let mut patch = wire_patch(ProtocolPatchOperation::Modify, None);
    patch.hunks.push(ProtocolDiffHunk {
        old_start: 0,
        old_lines: 1,
        new_start: 0,
        new_lines: 1,
        content: "-a\n+b\n".to_string(),
        header: None,
        context: None,
    });
    let internal = build_file_patch(patch);
    assert_eq!(internal.hunks.len(), 1);
    assert_eq!(internal.hunks[0].header, "");
    assert_eq!(internal.hunks[0].content, "-a\n+b\n");
}

#[test]
fn gate_request_names_operation_and_path() {
    let r = build_effect_request_for_patch(PatchOperation::Delete, "/w/a.txt");
    assert_eq!(r.effect_type, EffectType::FilesystemWrite);
    assert_eq!(r.source, EffectSource::Agent);
    assert_eq!(r.payload.path.as_deref(), Some("/w/a.txt"));
    assert_eq!(r.payload.operation.as_deref(), Some("delete"));
    assert_eq!(r.payload.description.as_deref(), Some("patch delete"));
}

#[test]
fn propose_then_unconfirmed_delete_orders_no_file_operation() {
    // a destructive apply without the user's confirmation must not touch
    // the disk
    let mut d = dispatcher();
    let outcome = d.handle_sidecar_command(
        "C1".to_string(),
        AgentCommand::ProposePatch { patch: wire_patch(ProtocolPatchOperation::Delete, None) },
        ctx(Some("old\n"), None, None),
    );
    assert_eq!(outcome.response_type, "propose_patch_response");
    assert_eq!(outcome.actions.len(), 1);
    match &outcome.actions[0] {
        coworkany::shadow::FsAction::WriteFile { content, .. } => assert_eq!(content, ""),
        other => panic!("a staged delete must write its empty shadow file, got {:?}", other),
    }
    let patch_id = match outcome.reply {
        DispatchReply::PatchProposed { patch_id, .. } => patch_id,
        _ => panic!("the proposal must stage"),
    };
    d.shadow.approve(&patch_id).unwrap();

    let outcome = d.handle_sidecar_command(
        "C2".to_string(),
        AgentCommand::ApplyPatch { patch_id: patch_id.clone(), create_backup: false },
        ctx(None, Some("old\n"), Some("")),
    );
    assert_eq!(outcome.response_type, "apply_patch_response");
    match outcome.reply {
        DispatchReply::PatchApplied { success, error, .. } => {
            assert!(!success);
            assert_eq!(error.as_deref(), Some("awaiting_confirmation"));
        }
        _ => panic!("the apply must answer"),
    }
    assert!(outcome.actions.is_empty());
    assert!(outcome.confirmation.is_some());
}

#[test]
fn modify_apply_passes_without_the_gate() {
    let mut d = dispatcher();
    let outcome = d.handle_sidecar_command(
        "C1".to_string(),
        AgentCommand::ProposePatch {
            patch: wire_patch(ProtocolPatchOperation::Modify, Some("new\n")),
        },
        ctx(Some("old\n"), None, None),
    );
    let (patch_id, shadow_path) = match outcome.reply {
        DispatchReply::PatchProposed { patch_id, shadow_path } => (patch_id, shadow_path),
        _ => panic!("the proposal must stage"),
    };
    // the proposal orders its shadow-file write, carrying the full content
    assert_eq!(outcome.actions.len(), 1);
    match &outcome.actions[0] {
        coworkany::shadow::FsAction::WriteFile { path, content } => {
            assert_eq!(path, &shadow_path);
            assert_eq!(content, "new\n");
        }
        other => panic!("a proposal must write its shadow file, got {:?}", other),
    }
    d.shadow.approve(&patch_id).unwrap();
    let outcome = d.handle_sidecar_command(
        "C2".to_string(),
        AgentCommand::ApplyPatch { patch_id, create_backup: false },
        ctx(None, Some("old\n"), Some("new\n")),
    );
    match outcome.reply {
        DispatchReply::PatchApplied { success, file_path, .. } => {
            assert!(success);
            assert_eq!(file_path, "/w/a.txt");
        }
        _ => panic!("the apply must answer"),
    }
    assert!(!outcome.actions.is_empty());
}

#[test]
fn request_effect_is_answered_and_audited() {
    let mut d = dispatcher();
    let request = EffectRequest {
        id: "e1".to_string(),
        timestamp: "2024-01-01T00:00:00Z".to_string(),
        effect_type: EffectType::FilesystemRead,
        source: EffectSource::Agent,
        source_id: None,
        payload: EffectPayload::default(),
        context: None,
        scope: None,
    };
    let outcome = d.handle_sidecar_command(
        "C1".to_string(),
        AgentCommand::RequestEffect { request },
        ctx(None, None, None),
    );
    assert_eq!(outcome.response_type, "request_effect_response");
    assert_eq!(outcome.audits.len(), 1);
    assert_eq!(outcome.audits[0].event_type, "request");
    match outcome.reply {
        DispatchReply::EffectDecision { response } => assert!(response.approved),
        _ => panic!("the request must be answered"),
    }
}

#[test]
fn registry_commands_acknowledge() {
    let mut d = dispatcher();
    let outcome = d.handle_sidecar_command(
        "C1".to_string(),
        AgentCommand::RecordAgentDelegation {
            delegation: coworkany::policy::types::AgentDelegation {
                parent_session_id: "p".to_string(),
                child_session_id: "c".to_string(),
                reason: None,
            },
        },
        ctx(None, None, None),
    );
    assert_eq!(outcome.response_type, "record_agent_delegation_response");
    match outcome.reply {
        DispatchReply::Acknowledged { success } => assert!(success),
        _ => panic!("the record must be acknowledged"),
    }
    assert_eq!(d.policy.delegations.len(), 1);
}
