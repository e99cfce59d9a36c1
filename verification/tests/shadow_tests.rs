use coworkany::diff::PatchOperation;
use coworkany::hash::compute_hash;
use coworkany::shadow::{DiskSnapshot, FsAction, ShadowFs, ShadowStatus};

fn disk(original: Option<&str>, shadow: Option<&str>) -> DiskSnapshot {
    DiskSnapshot {
        original_content: original.map(|s| s.to_string()),
        shadow_content: shadow.map(|s| s.to_string()),
        target_exists: false,
    }
}

#[test]
fn hash_of_empty_text_is_the_known_digest() {
    let hash = compute_hash("");
    assert_eq!(hash, "e3b0c44298fc1c149afbf4c8996fb92427ae41e4649b934ca495991b7852b855");
    assert_eq!(hash.len(), 64);
}

#[test]
fn hash_depends_on_content() {
    assert_ne!(compute_hash("a"), compute_hash("b"));
    assert_eq!(compute_hash("grüße"), compute_hash("grüße"));
}

#[test]
fn stage_diff_apply() {
    // stage, approve, apply: the ordered write carries the staged content
    let mut fs = ShadowFs::new("/w".to_string());
    let original = "line1\nline2\nline3\n";
    let staged = "line1\nX\nline3\n";
    let (entry, stage_actions) = fs
        .stage_file("/w/a.txt".to_string(), staged.to_string(), Some(original.to_string()))
        .unwrap();
    assert_eq!(entry.status, ShadowStatus::Pending);
    assert_eq!(stage_actions.len(), 1);
    match &stage_actions[0] {
        FsAction::WriteFile { path, content } => {
            assert_eq!(path, &entry.shadow_path);
            assert_eq!(content, staged);
        }
        other => panic!("staging must write the shadow file, got {:?}", other),
    }
    let patch = entry.patch.as_ref().unwrap();
    assert_eq!(patch.additions, 1);
    assert_eq!(patch.deletions, 1);
    assert_eq!(patch.operation, PatchOperation::Modify);
    assert_eq!(fs.list_pending().len(), 1);

    let approved = fs.approve(&entry.id).unwrap();
    assert_eq!(approved.status, ShadowStatus::Approved);
    assert!(approved.reviewed_at.is_some());

    let (result, actions) = fs.apply(&entry.id, true, &disk(Some(original), Some(staged))).unwrap();
    assert!(result.success);
    assert_eq!(result.file_path, "/w/a.txt");
    assert_eq!(result.backup_path.as_deref(), Some("/w/a.txt.bak"));
    assert_eq!(actions.len(), 3);
    match &actions[0] {
        FsAction::CopyFile { from, to } => {
            assert_eq!(from, "/w/a.txt");
            assert_eq!(to, "/w/a.txt.bak");
        }
        other => panic!("expected the backup copy first, got {:?}", other),
    }
    match &actions[1] {
        FsAction::WriteFile { path, content } => {
            assert_eq!(path, "/w/a.txt");
            assert_eq!(content, staged);
        }
        other => panic!("expected the content write, got {:?}", other),
    }
    match &actions[2] {
        FsAction::RemoveFile { path } => assert_eq!(path, &entry.shadow_path),
        other => panic!("expected the shadow removal, got {:?}", other),
    }
    assert_eq!(fs.get(&entry.id).unwrap().status, ShadowStatus::Applied);
    assert_eq!(fs.audit_log.len(), 2);
    assert_eq!(fs.audit_log[1].action, "apply");
}

#[test]
fn conflict_detection() {
    // an external overwrite between approve and apply fails the apply and
    // orders no file operation
    let mut fs = ShadowFs::new("/w".to_string());
    let original = "line1\nline2\nline3\n";
    let (entry, _) = fs
        .stage_file("/w/a.txt".to_string(), "line1\nX\nline3\n".to_string(),
            Some(original.to_string()))
        .unwrap();
    fs.approve(&entry.id).unwrap();

    let outcome = fs.apply(&entry.id, false, &disk(Some("different"), Some("line1\nX\nline3\n")));
    match outcome {
        Err(coworkany::shadow::ShadowFsError::Conflict { expected_hash, actual_hash }) => {
            assert_eq!(expected_hash, compute_hash(original));
            assert_eq!(actual_hash, compute_hash("different"));
        }
        other => panic!("expected a conflict, got {:?}", other.is_ok()),
    }
    assert_eq!(fs.get(&entry.id).unwrap().status, ShadowStatus::Conflict);
    assert_eq!(fs.audit_log.last().unwrap().action, "conflict");
}

#[test]
fn delete_via_shadow_moves_to_trash() {
    let mut fs = ShadowFs::new("/w".to_string());
    let original = "old stuff\n";
    let (entry, _) = fs
        .stage_file("/w/old.txt".to_string(), "".to_string(), Some(original.to_string()))
        .unwrap();
    assert_eq!(entry.patch.as_ref().unwrap().operation, PatchOperation::Delete);
    fs.approve(&entry.id).unwrap();
    let (result, actions) = fs.apply(&entry.id, false, &disk(Some(original), Some(""))).unwrap();
    assert!(result.success);
    assert_eq!(actions.len(), 2);
    match &actions[0] {
        FsAction::MoveToTrash { from, to } => {
            assert_eq!(from, "/w/old.txt");
            assert_eq!(to, &format!("/w/.coworkany/trash/{}-old.txt", entry.id));
        }
        other => panic!("expected the move to the trash, got {:?}", other),
    }
    assert_eq!(fs.audit_log.last().unwrap().action, "delete");
}

#[test]
fn apply_of_unapproved_entry_fails_softly() {
    let mut fs = ShadowFs::new("/w".to_string());
    let (entry, _) = fs
        .stage_file("/w/a.txt".to_string(), "x\n".to_string(), None)
        .unwrap();
    let (result, actions) = fs.apply(&entry.id, false, &disk(None, Some("x\n"))).unwrap();
    assert!(!result.success);
    assert_eq!(result.error.as_deref(), Some("File not approved"));
    assert!(actions.is_empty());
}

#[test]
fn apply_of_unknown_id_is_not_found() {
    let mut fs = ShadowFs::new("/w".to_string());
    match fs.apply("missing", false, &disk(None, None)) {
        Err(coworkany::shadow::ShadowFsError::NotFound(id)) => assert_eq!(id, "missing"),
        _ => panic!("an unknown id must be reported as not found"),
    }
}

#[test]
fn apply_with_missing_shadow_file_fails_gracefully() {
    let mut fs = ShadowFs::new("/w".to_string());
    let (entry, _) = fs
        .stage_file("/w/a.txt".to_string(), "x\n".to_string(), Some("y\n".to_string()))
        .unwrap();
    fs.approve(&entry.id).unwrap();
    match fs.apply(&entry.id, false, &disk(Some("y\n"), None)) {
        Err(coworkany::shadow::ShadowFsError::Io(_)) => {}
        _ => panic!("a removed shadow file must fail the apply gracefully"),
    }
}

#[test]
fn rename_to_occupied_target_fails() {
    let mut fs = ShadowFs::new("/w".to_string());
    let mut patch = coworkany::diff::compute_unified_diff("a\n", "a\n", "/w/a.txt", 3);
    patch.operation = PatchOperation::Rename;
    patch.new_file_path = Some("/w/b.txt".to_string());
    let (entry, _) = fs
        .stage_file_with_patch(
            "/w/a.txt".to_string(),
            "a\n".to_string(),
            Some("a\n".to_string()),
            Some(patch),
        )
        .unwrap();
    fs.approve(&entry.id).unwrap();
    let snapshot = DiskSnapshot {
        original_content: Some("a\n".to_string()),
        shadow_content: Some("a\n".to_string()),
        target_exists: true,
    };
    match fs.apply(&entry.id, false, &snapshot) {
        Err(coworkany::shadow::ShadowFsError::TargetExists(t)) => assert_eq!(t, "/w/b.txt"),
        _ => panic!("an occupied rename target must fail the apply"),
    }
}

#[test]
fn rename_to_same_path_is_not_a_target_conflict() {
    let mut fs = ShadowFs::new("/w".to_string());
    let mut patch = coworkany::diff::compute_unified_diff("a\n", "a\n", "/w/a.txt", 3);
    patch.operation = PatchOperation::Rename;
    patch.new_file_path = Some("/w/a.txt".to_string());
    let (entry, _) = fs
        .stage_file_with_patch(
            "/w/a.txt".to_string(),
            "a\n".to_string(),
            Some("a\n".to_string()),
            Some(patch),
        )
        .unwrap();
    fs.approve(&entry.id).unwrap();
    let snapshot = DiskSnapshot {
        original_content: Some("a\n".to_string()),
        shadow_content: Some("a\n".to_string()),
        target_exists: true,
    };
    let (result, _) = fs.apply(&entry.id, false, &snapshot).unwrap();
    assert!(result.success);
}

#[test]
fn reject_drops_the_shadow_file() {
    let mut fs = ShadowFs::new("/w".to_string());
    let (entry, _) = fs
        .stage_file("/w/a.txt".to_string(), "x\n".to_string(), None)
        .unwrap();
    let actions = fs.reject(&entry.id).unwrap();
    assert_eq!(actions.len(), 1);
    match &actions[0] {
        FsAction::RemoveFile { path } => assert_eq!(path, &entry.shadow_path),
        other => panic!("expected the shadow removal, got {:?}", other),
    }
    assert_eq!(fs.get(&entry.id).unwrap().status, ShadowStatus::Rejected);
    assert_eq!(fs.audit_log.last().unwrap().action, "reject");
}

#[test]
fn every_accepted_transition_writes_one_audit_record() {
    let mut fs = ShadowFs::new("/w".to_string());
    let (entry, _) = fs
        .stage_file("/w/a.txt".to_string(), "x\n".to_string(), Some("y\n".to_string()))
        .unwrap();
    assert_eq!(fs.audit_log.len(), 0);
    fs.approve(&entry.id).unwrap();
    assert_eq!(fs.audit_log.len(), 1);
    fs.apply(&entry.id, false, &disk(Some("y\n"), Some("x\n"))).unwrap();
    assert_eq!(fs.audit_log.len(), 2);
}

#[test]
fn cleanup_sweeps_old_settled_entries() {
    let mut fs = ShadowFs::new("/w".to_string());
    let (entry, _) = fs
        .stage_file("/w/a.txt".to_string(), "x\n".to_string(), None)
        .unwrap();
    let actions = fs.reject(&entry.id).unwrap();
    assert_eq!(actions.len(), 1);
    // far in the future every settled entry has expired
    let (removed, sweep) = fs.cleanup(1, 4102444800);
    assert_eq!(removed, 1);
    assert_eq!(sweep.len(), 1);
    assert!(fs.get(&entry.id).is_none());
    // a pending entry stays regardless of age
    let (entry2, _) = fs
        .stage_file("/w/b.txt".to_string(), "x\n".to_string(), None)
        .unwrap();
    let (removed2, _) = fs.cleanup(1, 4102444800);
    assert_eq!(removed2, 0);
    assert!(fs.get(&entry2.id).is_some());
}

#[test]
fn trash_path_uses_id_and_basename() {
    let fs = ShadowFs::new("/w".to_string());
    assert_eq!(
        fs.build_trash_path("/w/src/deep/old.txt", "abc"),
        "/w/.coworkany/trash/abc-old.txt"
    );
    assert_eq!(fs.build_trash_path("plain.txt", "abc"), "/w/.coworkany/trash/abc-plain.txt");
    assert_eq!(fs.build_trash_path("", "abc"), "/w/.coworkany/trash/abc-unknown");
}

#[test]
fn rollback_restores_from_backup() {
    let mut fs = ShadowFs::new("/w".to_string());
    let (entry, _) = fs
        .stage_file("/w/a.txt".to_string(), "x\n".to_string(), Some("y\n".to_string()))
        .unwrap();
    let actions = fs.rollback(&entry.id, true).unwrap();
    assert_eq!(actions.len(), 2);
    match &actions[0] {
        FsAction::CopyFile { from, to } => {
            assert_eq!(from, "/w/a.txt.bak");
            assert_eq!(to, "/w/a.txt");
        }
        other => panic!("expected the restore copy, got {:?}", other),
    }
    assert!(fs.rollback(&entry.id, false).unwrap().is_empty());
}
