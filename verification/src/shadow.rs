//! The shadow filesystem: a content-addressed staging area for proposed
//! file changes. Writes are staged under the shadow root, reviewed as
//! diffs, and applied atomically only after approval, with a hash check
//! guarding against files changed behind the staging area's back.
//!
//! The component is a state machine over its index: it decides every
//! transition and hands the actual file operations back to the embedding
//! application as explicit actions, computed from the contents the caller
//! read from disk.

use vstd::prelude::*;

use crate::clock::now_rfc3339;
use crate::diff::{
    compute_unified_diff, computed_patch, patch_eq, FilePatch, PatchOperation,
};
use crate::hash::{compute_hash, spec_hash};
use crate::ids::new_token;
use crate::strutil::clone_opt_string;

verus! {

// ============================================================================
// Errors and types
// ============================================================================

/// Error type for shadow filesystem operations.
#[derive(Debug, Clone)]
pub enum ShadowFsError {
    /// An underlying read or write failed; carries the message.
    Io(String),
    /// No staged entry has the given id.
    NotFound(String),
    /// The original file changed since the entry was staged.
    Conflict { expected_hash: String, actual_hash: String },
    /// The staging area was not set up.
    NotInitialized,
    /// The rename target already exists.
    TargetExists(String),
    /// The index could not be serialized; carries the message.
    Serialize(String),
}

/// Status of a staged entry.
#[derive(Debug, Clone, Copy, PartialEq, Eq, Structural)]
pub enum ShadowStatus {
    Pending,
    Approved,
    Rejected,
    Applied,
    Conflict,
}

/// A file staged in the shadow filesystem.
#[derive(Debug, Clone)]
pub struct ShadowFileEntry {
    pub id: String,
    pub original_path: String,
    pub original_exists: bool,
    pub original_hash: Option<String>,
    pub shadow_path: String,
    pub shadow_hash: String,
    pub status: ShadowStatus,
    pub created_at: String,
    pub reviewed_at: Option<String>,
    pub patch: Option<FilePatch>,
}

/// Two entries hold the same contents.
pub open spec fn entry_eq(a: ShadowFileEntry, b: ShadowFileEntry) -> bool {
    &&& a.id@ == b.id@
    &&& a.original_path@ == b.original_path@
    &&& a.original_exists == b.original_exists
    &&& a.original_hash.deep_view() == b.original_hash.deep_view()
    &&& a.shadow_path@ == b.shadow_path@
    &&& a.shadow_hash@ == b.shadow_hash@
    &&& a.status == b.status
    &&& a.created_at@ == b.created_at@
    &&& a.reviewed_at.deep_view() == b.reviewed_at.deep_view()
    &&& match (a.patch, b.patch) {
        (Some(p), Some(q)) => patch_eq(p, q),
        (None, None) => true,
        _ => false,
    }
}

impl ShadowFileEntry {
    /// A copy of this entry with the same contents.
    pub fn duplicate(&self) -> (r: ShadowFileEntry)
        ensures
            entry_eq(*self, r),
    {
        ShadowFileEntry {
            id: self.id.clone(),
            original_path: self.original_path.clone(),
            original_exists: self.original_exists,
            original_hash: clone_opt_string(&self.original_hash),
            shadow_path: self.shadow_path.clone(),
            shadow_hash: self.shadow_hash.clone(),
            status: self.status,
            created_at: self.created_at.clone(),
            reviewed_at: clone_opt_string(&self.reviewed_at),
            patch: match &self.patch {
                Some(p) => Some(p.duplicate()),
                None => None,
            },
        }
    }
}

/// Result of applying a staged entry.
#[derive(Debug, Clone)]
pub struct ApplyResult {
    pub success: bool,
    pub file_path: String,
    pub backup_path: Option<String>,
    pub error: Option<String>,
}

/// One file operation the embedding application must perform to realize
/// a decision; the component itself never touches the disk.
#[derive(Debug, Clone)]
pub enum FsAction {
    /// Copy a file, creating or overwriting the target.
    CopyFile { from: String, to: String },
    /// Move a file aside into the trash.
    MoveToTrash { from: String, to: String },
    /// Rename a file, creating the target's parent directory first.
    Rename { from: String, to: String },
    /// Write the content to the path, creating the parent directory first.
    WriteFile { path: String, content: String },
    /// Remove a file, ignoring a missing one.
    RemoveFile { path: String },
}

/// What the caller read from disk before asking for an apply: the current
/// content of the entry's original path (`None` if the file is missing),
/// the content of the shadow file (`None` if it was removed behind the
/// component's back), and whether the rename target exists.
pub struct DiskSnapshot {
    pub original_content: Option<String>,
    pub shadow_content: Option<String>,
    pub target_exists: bool,
}

/// One line of the shadow audit stream.
#[derive(Debug, Clone)]
pub struct ShadowAuditRecord {
    pub timestamp: String,
    pub action: String,
    pub id: String,
    pub original_path: String,
    pub target_path: Option<String>,
    pub status: ShadowStatus,
}

// ============================================================================
// The component
// ============================================================================

/// The staging area: the index of staged entries and the audit log of
/// accepted transitions. The index is keyed by entry id.
pub struct ShadowFs {
    pub shadow_root: String,
    pub trash_root: String,
    pub workspace_root: String,
    pub files: Vec<(String, ShadowFileEntry)>,
    pub index_path: String,
    pub audit_path: String,
    pub audit_log: Vec<ShadowAuditRecord>,
}

/// Every entry is keyed by its own id, and keys are pairwise distinct.
pub open spec fn shadow_wf(v: Seq<(String, ShadowFileEntry)>) -> bool {
    &&& forall|p: int, q: int|
        0 <= p < q < v.len() ==> (#[trigger] v[p]).0@ != (#[trigger] v[q]).0@
    &&& forall|k: int| 0 <= k < v.len() ==> (#[trigger] v[k]).1.id@ == v[k].0@
}

/// Whether the index holds an entry with the id.
pub open spec fn shadow_has(v: Seq<(String, ShadowFileEntry)>, id: Seq<char>) -> bool {
    exists|k: int| 0 <= k < v.len() && (#[trigger] v[k]).0@ == id
}

/// The index of the entry with the id.
fn shadow_find(v: &Vec<(String, ShadowFileEntry)>, id: &str) -> (r: Option<usize>)
    ensures
        match r {
            Some(k) => 0 <= k < v@.len() && v@[k as int].0@ == id@,
            None => !shadow_has(v@, id@),
        },
{
    let mut i: usize = 0;
    while i < v.len()
        invariant
            0 <= i <= v@.len(),
            forall|q: int| 0 <= q < i ==> (#[trigger] v@[q]).0@ != id@,
        decreases v@.len() - i,
    {
        if crate::strutil::str_eq(v[i].0.as_str(), id) {
            return Some(i);
        }
        i = i + 1;
    }
    None
}

impl ShadowFs {
    /// A staging area under the workspace root, with an empty index. Any
    /// previously persisted index entries are restored one by one with
    /// `restore_entry`.
    pub fn new(workspace_root: String) -> (r: Self)
        ensures
            r.workspace_root@ == workspace_root@,
            r.shadow_root@ == workspace_root@ + "/.coworkany/shadow"@,
            r.trash_root@ == workspace_root@ + "/.coworkany/trash"@,
            r.index_path@ == workspace_root@ + "/.coworkany/shadow/index.json"@,
            r.audit_path@ == workspace_root@ + "/.coworkany/audit-shadow.jsonl"@,
            r.files@ == Seq::<(String, ShadowFileEntry)>::empty(),
            r.audit_log@ == Seq::<ShadowAuditRecord>::empty(),
            shadow_wf(r.files@),
    {
        let mut shadow_root = workspace_root.clone();
        shadow_root.append("/.coworkany/shadow");
        let mut trash_root = workspace_root.clone();
        trash_root.append("/.coworkany/trash");
        let mut index_path = shadow_root.clone();
        index_path.append("/index.json");
        let mut audit_path = workspace_root.clone();
        audit_path.append("/.coworkany/audit-shadow.jsonl");
        proof {
            reveal_strlit("/.coworkany/shadow");
            reveal_strlit("/index.json");
            reveal_strlit("/.coworkany/shadow/index.json");
            assert(index_path@ =~= workspace_root@ + "/.coworkany/shadow/index.json"@);
        }
        ShadowFs {
            shadow_root,
            trash_root,
            workspace_root,
            files: Vec::new(),
            index_path,
            audit_path,
            audit_log: Vec::new(),
        }
    }

    /// Put a persisted entry back into the index, replacing any entry
    /// with the same id; every other entry stays where it was.
    #[verifier::loop_isolation(false)]
    pub fn restore_entry(&mut self, entry: ShadowFileEntry)
        requires
            shadow_wf(old(self).files@),
        ensures
            shadow_wf(final(self).files@),
            shadow_has(final(self).files@, entry.id@),
            forall|k: int|
                0 <= k < final(self).files@.len()
                    && (#[trigger] final(self).files@[k]).0@ == entry.id@
                    ==> final(self).files@[k].1 == entry,
            forall|j: int|
                0 <= j < old(self).files@.len()
                    && (#[trigger] old(self).files@[j]).0@ != entry.id@
                    ==> final(self).files@[j] == old(self).files@[j],
            final(self).audit_log == old(self).audit_log,
    {
        let key = entry.id.clone();
        let ghost eid = entry.id;
        let ghost oldv = self.files@;
        let mut at: usize = 0;
        match shadow_find(&self.files, key.as_str()) {
            Some(k) => {
                self.files.set(k, (key, entry));
                at = k;
            }
            None => {
                self.files.push((key, entry));
                at = self.files.len() - 1;
            }
        }
        proof {
            upsert_wf_proof(oldv, self.files@, at as int, eid@);
            let newv = self.files@;
            assert forall|k: int|
                0 <= k < newv.len() && (#[trigger] newv[k]).0@ == eid@
                    implies k == at as int by {
                if k != at as int {
                    assert(newv[if k < at as int { k } else { at as int }].0@
                        != newv[if k < at as int { at as int } else { k }].0@);
                }
            }
        }
    }

    /// Stage a file modification, computing the diff itself. The returned
    /// action writes the staged content to the fresh shadow file.
    pub fn stage_file(
        &mut self,
        original_path: String,
        new_content: String,
        original_content: Option<String>,
    ) -> (r: Result<(ShadowFileEntry, Vec<FsAction>), ShadowFsError>)
        requires
            shadow_wf(old(self).files@),
        ensures
            shadow_wf(final(self).files@),
            r matches Ok((entry, actions)) && stage_post(
                *old(self),
                *final(self),
                original_path@,
                new_content@,
                original_content,
                None,
                entry,
            ) && actions@.len() == 1 && (actions@[0] matches FsAction::WriteFile { path, content }
                && path@ == entry.shadow_path@ && content@ == new_content@),
    {
        self.stage_file_with_patch(original_path, new_content, original_content, None)
    }

    /// Stage a file modification with an explicit patch override; without
    /// one the diff against the current content is computed here. The
    /// returned action writes the staged content to the fresh shadow file.
    #[verifier::loop_isolation(false)]
    pub fn stage_file_with_patch(
        &mut self,
        original_path: String,
        new_content: String,
        original_content: Option<String>,
        patch_override: Option<FilePatch>,
    ) -> (r: Result<(ShadowFileEntry, Vec<FsAction>), ShadowFsError>)
        requires
            shadow_wf(old(self).files@),
        ensures
            shadow_wf(final(self).files@),
            r matches Ok((entry, actions)) && stage_post(
                *old(self),
                *final(self),
                original_path@,
                new_content@,
                original_content,
                patch_override,
                entry,
            ) && actions@.len() == 1 && (actions@[0] matches FsAction::WriteFile { path, content }
                && path@ == entry.shadow_path@ && content@ == new_content@),
    {
        let id = new_token();

        let (original_exists, original_hash) = match &original_content {
            Some(content) => (true, Some(compute_hash(content.as_str()))),
            None => (false, None),
        };

        let mut shadow_path = self.shadow_root.clone();
        shadow_path.append("/");
        shadow_path.append(id.as_str());
        let shadow_hash = compute_hash(new_content.as_str());

        let patch = match patch_override {
            Some(mut p) => {
                p.id = id.clone();
                Some(p)
            }
            None => {
                let empty = String::new();
                let base: &String = match &original_content {
                    Some(content) => content,
                    None => &empty,
                };
                Some(compute_unified_diff(
                    base.as_str(),
                    new_content.as_str(),
                    original_path.as_str(),
                    3,
                ))
            }
        };

        let entry = ShadowFileEntry {
            id: id.clone(),
            original_path,
            original_exists,
            original_hash,
            shadow_path,
            shadow_hash,
            status: ShadowStatus::Pending,
            created_at: now_rfc3339(),
            reviewed_at: None,
            patch,
        };
        let stored = entry.duplicate();
        let result = entry;

        let ghost eid = result.id;
        let ghost oldv = self.files@;
        let mut at: usize = 0;
        match shadow_find(&self.files, id.as_str()) {
            Some(k) => {
                self.files.set(k, (id, stored));
                at = k;
            }
            None => {
                self.files.push((id, stored));
                at = self.files.len() - 1;
            }
        }
        proof {
            upsert_wf_proof(oldv, self.files@, at as int, eid@);
            let newv = self.files@;
            assert forall|k: int|
                0 <= k < newv.len() && (#[trigger] newv[k]).0@ == eid@
                    implies entry_eq(newv[k].1, result) by {
                if k != at as int {
                    assert(newv[if k < at as int { k } else { at as int }].0@
                        != newv[if k < at as int { at as int } else { k }].0@);
                }
            }
        }
        let mut actions: Vec<FsAction> = Vec::new();
        actions.push(FsAction::WriteFile {
            path: result.shadow_path.clone(),
            content: new_content,
        });
        Ok((result, actions))
    }

    /// Look up a staged entry.
    pub fn get(&self, id: &str) -> (r: Option<&ShadowFileEntry>)
        requires
            shadow_wf(self.files@),
        ensures
            match r {
                Some(e) => shadow_has(self.files@, id@) && e.id@ == id@ && *e == spec_entry_of(
                    self.files@,
                    id@,
                ),
                None => !shadow_has(self.files@, id@),
            },
    {
        match shadow_find(&self.files, id) {
            Some(k) => {
                proof {
                    entry_of_is_at(self.files@, id@, k as int);
                }
                Some(&self.files[k].1)
            }
            None => None,
        }
    }

    /// The staged entries still awaiting review.
    pub fn list_pending(&self) -> (r: Vec<&ShadowFileEntry>)
        ensures
            forall|k: int| 0 <= k < r@.len() ==> (#[trigger] r@[k]).status == ShadowStatus::Pending,
            forall|j: int|
                0 <= j < self.files@.len() && (#[trigger] self.files@[j]).1.status
                    == ShadowStatus::Pending ==> exists|k: int|
                    0 <= k < r@.len() && #[trigger] r@[k] == self.files@[j].1,
    {
        let mut r: Vec<&ShadowFileEntry> = Vec::new();
        let mut i: usize = 0;
        while i < self.files.len()
            invariant
                0 <= i <= self.files@.len(),
                forall|k: int|
                    0 <= k < r@.len() ==> (#[trigger] r@[k]).status == ShadowStatus::Pending,
                forall|j: int|
                    0 <= j < i && (#[trigger] self.files@[j]).1.status == ShadowStatus::Pending
                        ==> exists|k: int|
                        0 <= k < r@.len() && #[trigger] r@[k] == self.files@[j].1,
            decreases self.files@.len() - i,
        {
            if self.files[i].1.status == ShadowStatus::Pending {
                let ghost before = r@;
                r.push(&self.files[i].1);
                proof {
                    assert(r@[r@.len() - 1] == self.files@[i as int].1);
                    assert forall|j: int|
                        0 <= j < i + 1 && (#[trigger] self.files@[j]).1.status
                            == ShadowStatus::Pending implies exists|k: int|
                            0 <= k < r@.len() && #[trigger] r@[k] == self.files@[j].1 by {
                        if j < i {
                            let k0 = choose|k: int|
                                0 <= k < before.len() && #[trigger] before[k]
                                    == self.files@[j].1;
                            assert(r@[k0] == self.files@[j].1);
                        } else {
                            assert(r@[r@.len() - 1] == self.files@[j].1);
                        }
                    }
                }
            }
            i = i + 1;
        }
        r
    }

    /// Approve a pending entry for application.
    #[verifier::loop_isolation(false)]
    pub fn approve(&mut self, id: &str) -> (r: Result<ShadowFileEntry, ShadowFsError>)
        requires
            shadow_wf(old(self).files@),
        ensures
            shadow_wf(final(self).files@),
            r is Ok <==> shadow_has(old(self).files@, id@),
            r matches Ok(entry) ==> {
                &&& entry.id@ == id@
                &&& entry.status == ShadowStatus::Approved
                &&& entry.reviewed_at is Some
                &&& status_change_post(old(self).files@, final(self).files@, id@,
                    ShadowStatus::Approved)
                &&& final(self).audit_log@.len() == old(self).audit_log@.len() + 1
                &&& final(self).audit_log@.last().action@ == "approve"@
                &&& final(self).audit_log@.last().id@ == id@
                &&& final(self).audit_log@.subrange(0, old(self).audit_log@.len() as int)
                    == old(self).audit_log@
            },
            r is Err ==> *final(self) == *old(self) && (r matches Err(e)
                && e matches ShadowFsError::NotFound(missing) && missing@ == id@),
    {
        let found = shadow_find(&self.files, id);
        match found {
            None => Err(ShadowFsError::NotFound(id.to_owned())),
            Some(k) => {
                let ghost oldv = self.files@;
                let mut entry = self.files[k].1.duplicate();
                entry.status = ShadowStatus::Approved;
                entry.reviewed_at = Some(now_rfc3339());
                let key = self.files[k].0.clone();
                let result = entry.duplicate();
                self.files.set(k, (key, entry));
                proof {
                    status_change_proof(oldv, self.files@, k as int);
                }
                self.audit_log.push(ShadowAuditRecord {
                    timestamp: now_rfc3339(),
                    action: "approve".to_owned(),
                    id: id.to_owned(),
                    original_path: result.original_path.clone(),
                    target_path: None,
                    status: ShadowStatus::Approved,
                });
                Ok(result)
            }
        }
    }

    /// Reject a pending entry; its shadow file is to be removed.
    #[verifier::loop_isolation(false)]
    pub fn reject(&mut self, id: &str) -> (r: Result<Vec<FsAction>, ShadowFsError>)
        requires
            shadow_wf(old(self).files@),
        ensures
            shadow_wf(final(self).files@),
            r is Ok <==> shadow_has(old(self).files@, id@),
            r matches Ok(actions) ==> {
                &&& status_change_post(old(self).files@, final(self).files@, id@,
                    ShadowStatus::Rejected)
                &&& actions@.len() == 1
                &&& (actions@[0] matches FsAction::RemoveFile { path }
                    && path@ == spec_entry_of(old(self).files@, id@).shadow_path@)
                &&& final(self).audit_log@.len() == old(self).audit_log@.len() + 1
                &&& final(self).audit_log@.last().action@ == "reject"@
                &&& final(self).audit_log@.last().id@ == id@
                &&& final(self).audit_log@.subrange(0, old(self).audit_log@.len() as int)
                    == old(self).audit_log@
            },
            r is Err ==> *final(self) == *old(self) && (r matches Err(e)
                && e matches ShadowFsError::NotFound(missing) && missing@ == id@),
    {
        let found = shadow_find(&self.files, id);
        match found {
            None => Err(ShadowFsError::NotFound(id.to_owned())),
            Some(k) => {
                let ghost oldv = self.files@;
                proof {
                    entry_of_is_at(oldv, id@, k as int);
                }
                let mut entry = self.files[k].1.duplicate();
                entry.status = ShadowStatus::Rejected;
                entry.reviewed_at = Some(now_rfc3339());
                let key = self.files[k].0.clone();
                let shadow_path = entry.shadow_path.clone();
                let original_path = entry.original_path.clone();
                self.files.set(k, (key, entry));
                proof {
                    status_change_proof(oldv, self.files@, k as int);
                }
                self.audit_log.push(ShadowAuditRecord {
                    timestamp: now_rfc3339(),
                    action: "reject".to_owned(),
                    id: id.to_owned(),
                    original_path,
                    target_path: None,
                    status: ShadowStatus::Rejected,
                });
                let mut actions: Vec<FsAction> = Vec::new();
                actions.push(FsAction::RemoveFile { path: shadow_path });
                Ok(actions)
            }
        }
    }
}

// ============================================================================
// Apply
// ============================================================================

/// The operation a staged entry carries; a modify when no patch is
/// attached.
pub open spec fn spec_operation(e: ShadowFileEntry) -> PatchOperation {
    match e.patch {
        Some(p) => p.operation,
        None => PatchOperation::Modify,
    }
}

/// The path an apply writes: the patch's rename target, or the entry's
/// original path.
pub open spec fn spec_target_path(e: ShadowFileEntry) -> Seq<char> {
    match e.patch {
        Some(p) => match p.new_file_path {
            Some(t) => t@,
            None => e.original_path@,
        },
        None => e.original_path@,
    }
}

/// The staged hash is checked on apply: the entry was staged over an
/// existing original whose hash it recorded, and the current content's
/// hash differs.
pub open spec fn spec_hash_conflict(e: ShadowFileEntry, current: Option<String>) -> bool {
    &&& e.original_exists
    &&& e.original_hash is Some
    &&& current matches Some(c) && spec_hash(c@) != e.original_hash->Some_0@
}

/// The entry found under `id` in the index, when one is there; used only
/// under `shadow_has`.
pub open spec fn spec_entry_of(v: Seq<(String, ShadowFileEntry)>, id: Seq<char>) -> ShadowFileEntry {
    let k = choose|k: int| 0 <= k < v.len() && (#[trigger] v[k]).0@ == id;
    v[k].1
}

/// An apply of `id` against the given disk contents runs to a successful
/// end: the entry is approved, the recorded hash matches the current
/// content, the contents the operation needs were readable, and a rename
/// target is not occupied.
pub open spec fn apply_succeeds(s: ShadowFs, id: Seq<char>, disk: DiskSnapshot) -> bool {
    &&& shadow_has(s.files@, id)
    &&& {
        let e = spec_entry_of(s.files@, id);
        &&& e.status == ShadowStatus::Approved
        &&& !spec_hash_conflict(e, disk.original_content)
        &&& (e.original_exists && e.original_hash is Some ==> disk.original_content is Some)
        &&& (match spec_operation(e) {
            PatchOperation::Delete => true,
            PatchOperation::Rename => disk.shadow_content is Some && !(disk.original_content
                is Some && disk.target_exists && spec_target_path(e) != e.original_path@),
            _ => disk.shadow_content is Some,
        })
    }
}

/// An apply of `id` against the given disk contents passes the conflict
/// check but finds its rename target occupied by another file.
pub open spec fn apply_target_blocked(s: ShadowFs, id: Seq<char>, disk: DiskSnapshot) -> bool {
    &&& shadow_has(s.files@, id)
    &&& {
        let e = spec_entry_of(s.files@, id);
        &&& e.status == ShadowStatus::Approved
        &&& !spec_hash_conflict(e, disk.original_content)
        &&& (e.original_exists && e.original_hash is Some ==> disk.original_content is Some)
        &&& spec_operation(e) == PatchOperation::Rename
        &&& disk.original_content is Some
        &&& disk.target_exists
        &&& spec_target_path(e) != e.original_path@
    }
}

/// An apply of `id` against the given disk contents hits the conflict
/// check: the entry is approved but the original changed since staging.
pub open spec fn apply_conflicts(s: ShadowFs, id: Seq<char>, disk: DiskSnapshot) -> bool {
    &&& shadow_has(s.files@, id)
    &&& {
        let e = spec_entry_of(s.files@, id);
        &&& e.status == ShadowStatus::Approved
        &&& spec_hash_conflict(e, disk.original_content)
    }
}

/// The id's entry moves to the given status with the given path; every
/// other entry and every other field stays.
pub open spec fn entry_settle_post(
    pre: Seq<(String, ShadowFileEntry)>,
    post: Seq<(String, ShadowFileEntry)>,
    id: Seq<char>,
    status: ShadowStatus,
    new_path: Seq<char>,
) -> bool {
    &&& post.len() == pre.len()
    &&& forall|k: int|
        0 <= k < pre.len() && (#[trigger] pre[k]).0@ != id ==> post[k] == pre[k]
    &&& forall|k: int|
        0 <= k < pre.len() && (#[trigger] pre[k]).0@ == id ==> {
            &&& post[k].0@ == id
            &&& post[k].1.status == status
            &&& post[k].1.original_path@ == new_path
            &&& post[k].1.id@ == pre[k].1.id@
            &&& post[k].1.original_exists == pre[k].1.original_exists
            &&& post[k].1.original_hash.deep_view() == pre[k].1.original_hash.deep_view()
            &&& post[k].1.shadow_path@ == pre[k].1.shadow_path@
            &&& post[k].1.shadow_hash@ == pre[k].1.shadow_hash@
            &&& post[k].1.created_at@ == pre[k].1.created_at@
            &&& post[k].1.reviewed_at.deep_view() == pre[k].1.reviewed_at.deep_view()
        }
}

/// The result and the ordered file operations of a successful apply: an
/// optional backup copy first, then the operation's own moves and writes,
/// then the removal of the shadow file; the one written content is
/// exactly the shadow file's content as the caller read it.
pub open spec fn apply_success_actions(
    pre: ShadowFs,
    id: Seq<char>,
    create_backup: bool,
    disk: DiskSnapshot,
    a: ApplyResult,
    actions: Seq<FsAction>,
) -> bool {
    let e = spec_entry_of(pre.files@, id);
    let target = spec_target_path(e);
    let exists_now = disk.original_content is Some;
    let backed_up = create_backup && exists_now;
    let nb = if backed_up {
        1int
    } else {
        0int
    };
    &&& a.success == true
    &&& a.file_path@ == target
    &&& (if backed_up {
        a.backup_path matches Some(b) && b@ == e.original_path@ + ".bak"@
    } else {
        a.backup_path is None
    })
    &&& (backed_up ==> (actions[0] matches FsAction::CopyFile { from, to }
        && from@ == e.original_path@ && to@ == e.original_path@ + ".bak"@))
    &&& (actions.last() matches FsAction::RemoveFile { path } && path@ == e.shadow_path@)
    &&& (match spec_operation(e) {
        PatchOperation::Delete => {
            if exists_now {
                actions.len() == nb + 2 && (actions[nb] matches FsAction::MoveToTrash { from, to }
                    && from@ == e.original_path@
                    && to@ == spec_trash_path(pre.trash_root@, e.original_path@, id))
            } else {
                actions.len() == nb + 1
            }
        }
        PatchOperation::Rename => {
            if exists_now {
                actions.len() == nb + 3 && (actions[nb] matches FsAction::Rename { from, to }
                    && from@ == e.original_path@ && to@ == target) && (actions[nb + 1]
                    matches FsAction::WriteFile { path, content } && path@ == target
                    && content@ == disk.shadow_content->Some_0@)
            } else {
                actions.len() == nb + 2 && (actions[nb] matches FsAction::WriteFile {
                    path,
                    content,
                } && path@ == target && content@ == disk.shadow_content->Some_0@)
            }
        }
        _ => {
            actions.len() == nb + 2 && (actions[nb] matches FsAction::WriteFile { path, content }
                && path@ == e.original_path@ && content@ == disk.shadow_content->Some_0@)
        }
    })
}

impl ShadowFs {
    /// Apply an approved entry against the contents the caller read from
    /// disk. The component decides; the returned actions are the file
    /// operations to perform, in order. A hash mismatch moves the entry
    /// to `Conflict` and orders no file operation at all, so the file on
    /// disk stays as it is.
    #[verifier::loop_isolation(false)]
    pub fn apply(&mut self, id: &str, create_backup: bool, disk: &DiskSnapshot) -> (r: Result<
        (ApplyResult, Vec<FsAction>),
        ShadowFsError,
    >)
        requires
            shadow_wf(old(self).files@),
        ensures
            shadow_wf(final(self).files@),
            final(self).shadow_root == old(self).shadow_root,
            final(self).trash_root == old(self).trash_root,
            !shadow_has(old(self).files@, id@) ==> (*final(self) == *old(self) && (
            r matches Err(e) && e matches ShadowFsError::NotFound(m) && m@ == id@)),
            shadow_has(old(self).files@, id@)
                && spec_entry_of(old(self).files@, id@).status != ShadowStatus::Approved
                ==> (*final(self) == *old(self) && (r matches Ok((a, actions))
                    && a.success == false
                    && (a.error matches Some(m) && m@ == "File not approved"@)
                    && actions@.len() == 0)),
            apply_conflicts(*old(self), id@, *disk) ==> {
                let e = spec_entry_of(old(self).files@, id@);
                &&& r matches Err(err) && (err matches ShadowFsError::Conflict {
                    expected_hash,
                    actual_hash,
                } && expected_hash@ == e.original_hash->Some_0@
                    && actual_hash@ == spec_hash(disk.original_content->Some_0@))
                &&& entry_settle_post(old(self).files@, final(self).files@, id@,
                    ShadowStatus::Conflict, e.original_path@)
                &&& final(self).audit_log@.len() == old(self).audit_log@.len() + 1
                &&& final(self).audit_log@.last().action@ == "conflict"@
                &&& final(self).audit_log@.last().id@ == id@
            },
            apply_target_blocked(*old(self), id@, *disk) ==> {
                let e = spec_entry_of(old(self).files@, id@);
                &&& (r matches Err(err) && (err matches ShadowFsError::TargetExists(t)
                    && t@ == spec_target_path(e)))
                &&& *final(self) == *old(self)
            },
            apply_succeeds(*old(self), id@, *disk) ==> {
                let e = spec_entry_of(old(self).files@, id@);
                &&& (r matches Ok((a, actions)) && apply_success_actions(*old(self), id@,
                    create_backup, *disk, a, actions@))
                &&& entry_settle_post(old(self).files@, final(self).files@, id@,
                    ShadowStatus::Applied, if spec_operation(e) == PatchOperation::Rename {
                    spec_target_path(e)
                } else {
                    e.original_path@
                })
                &&& final(self).audit_log@.len() == old(self).audit_log@.len() + 1
                &&& final(self).audit_log@.last().id@ == id@
                &&& final(self).audit_log@.last().action@ == (match spec_operation(e) {
                    PatchOperation::Delete => "delete"@,
                    PatchOperation::Rename => "rename"@,
                    _ => "apply"@,
                })
            },
    {
        let found = shadow_find(&self.files, id);
        let k = match found {
            None => {
                return Err(ShadowFsError::NotFound(id.to_owned()));
            }
            Some(k) => k,
        };
        proof {
            entry_of_is_at(self.files@, id@, k as int);
        }
        let entry = self.files[k].1.duplicate();

        if entry.status != ShadowStatus::Approved {
            return Ok((
                ApplyResult {
                    success: false,
                    file_path: entry.original_path,
                    backup_path: None,
                    error: Some("File not approved".to_owned()),
                },
                Vec::new(),
            ));
        }

        // Check for a changed original.
        if entry.original_exists {
            if let Some(expected_hash) = &entry.original_hash {
                let current = match &disk.original_content {
                    Some(c) => c,
                    None => {
                        return Err(ShadowFsError::Io(
                            "original file could not be read".to_owned(),
                        ));
                    }
                };
                let current_hash = compute_hash(current.as_str());
                if !crate::strutil::string_eq(&current_hash, expected_hash) {
                    let ghost oldv = self.files@;
                    let mut conflicted = self.files[k].1.duplicate();
                    conflicted.status = ShadowStatus::Conflict;
                    let key = self.files[k].0.clone();
                    let original_path = conflicted.original_path.clone();
                    self.files.set(k, (key, conflicted));
                    proof {
                        settle_proof(oldv, self.files@, k as int);
                    }
                    self.audit_log.push(ShadowAuditRecord {
                        timestamp: now_rfc3339(),
                        action: "conflict".to_owned(),
                        id: id.to_owned(),
                        original_path,
                        target_path: None,
                        status: ShadowStatus::Conflict,
                    });
                    return Err(ShadowFsError::Conflict {
                        expected_hash: expected_hash.clone(),
                        actual_hash: current_hash,
                    });
                }
            }
        }

        let operation = match &entry.patch {
            Some(p) => p.operation,
            None => PatchOperation::Modify,
        };
        let target_path: String = match &entry.patch {
            Some(p) => match &p.new_file_path {
                Some(t) => t.clone(),
                None => entry.original_path.clone(),
            },
            None => entry.original_path.clone(),
        };

        let exists_now = disk.original_content.is_some();
        let mut actions: Vec<FsAction> = Vec::new();

        // Back up the original before touching it, if asked to.
        let backup_path: Option<String> = if create_backup && exists_now {
            let mut bak = entry.original_path.clone();
            bak.append(".bak");
            actions.push(FsAction::CopyFile {
                from: entry.original_path.clone(),
                to: bak.clone(),
            });
            Some(bak)
        } else {
            None
        };

        let action_label: &'static str;
        if operation == PatchOperation::Delete {
            if exists_now {
                let trashed = self.build_trash_path(entry.original_path.as_str(), id);
                actions.push(FsAction::MoveToTrash {
                    from: entry.original_path.clone(),
                    to: trashed,
                });
            }
            action_label = "delete";
        } else if operation == PatchOperation::Rename {
            if exists_now && disk.target_exists
                && !crate::strutil::str_eq(target_path.as_str(), entry.original_path.as_str()) {
                return Err(ShadowFsError::TargetExists(target_path));
            }
            let shadow_content = match &disk.shadow_content {
                Some(c) => c,
                None => {
                    return Err(ShadowFsError::Io("shadow file could not be read".to_owned()));
                }
            };
            if exists_now {
                actions.push(FsAction::Rename {
                    from: entry.original_path.clone(),
                    to: target_path.clone(),
                });
            }
            actions.push(FsAction::WriteFile {
                path: target_path.clone(),
                content: shadow_content.clone(),
            });
            action_label = "rename";
        } else {
            let shadow_content = match &disk.shadow_content {
                Some(c) => c,
                None => {
                    return Err(ShadowFsError::Io("shadow file could not be read".to_owned()));
                }
            };
            actions.push(FsAction::WriteFile {
                path: entry.original_path.clone(),
                content: shadow_content.clone(),
            });
            action_label = "apply";
        }

        // Settle the entry and drop its shadow file.
        let ghost oldv = self.files@;
        let mut applied = self.files[k].1.duplicate();
        applied.status = ShadowStatus::Applied;
        if operation == PatchOperation::Rename {
            applied.original_path = target_path.clone();
        }
        let key = self.files[k].0.clone();
        self.files.set(k, (key, applied));
        proof {
            settle_proof(oldv, self.files@, k as int);
        }
        actions.push(FsAction::RemoveFile { path: entry.shadow_path.clone() });

        self.audit_log.push(ShadowAuditRecord {
            timestamp: now_rfc3339(),
            action: action_label.to_owned(),
            id: id.to_owned(),
            original_path: entry.original_path.clone(),
            target_path: Some(target_path.clone()),
            status: ShadowStatus::Applied,
        });

        Ok((
            ApplyResult {
                success: true,
                file_path: target_path,
                backup_path,
                error: None,
            },
            actions,
        ))
    }

    /// The path a trashed file is moved to: the entry id and the file's
    /// base name, joined under the trash root.
    pub fn build_trash_path(&self, original_path: &str, id: &str) -> (r: String)
        ensures
            r@ == spec_trash_path(self.trash_root@, original_path@, id@),
    {
        let base = basename_or_unknown(original_path);
        let mut r = self.trash_root.clone();
        r.append("/");
        r.append(id);
        r.append("-");
        r.append(base.as_str());
        proof {
            reveal_strlit("/");
            reveal_strlit("-");
            assert(r@ =~= spec_trash_path(self.trash_root@, original_path@, id@));
        }
        r
    }

    /// Restore an applied change from its backup file, if the caller
    /// found one on disk.
    pub fn rollback(&self, id: &str, backup_exists: bool) -> (r: Result<
        Vec<FsAction>,
        ShadowFsError,
    >)
        requires
            shadow_wf(self.files@),
        ensures
            r is Ok <==> shadow_has(self.files@, id@),
            r matches Ok(actions) ==> {
                let e = spec_entry_of(self.files@, id@);
                if backup_exists {
                    &&& actions@.len() == 2
                    &&& (actions@[0] matches FsAction::CopyFile { from, to }
                        && from@ == e.original_path@ + ".bak"@ && to@ == e.original_path@)
                    &&& (actions@[1] matches FsAction::RemoveFile { path }
                        && path@ == e.original_path@ + ".bak"@)
                } else {
                    actions@.len() == 0
                }
            },
            r is Err ==> (r matches Err(e) && e matches ShadowFsError::NotFound(m) && m@ == id@),
    {
        let found = shadow_find(&self.files, id);
        match found {
            None => Err(ShadowFsError::NotFound(id.to_owned())),
            Some(k) => {
                proof {
                    entry_of_is_at(self.files@, id@, k as int);
                }
                let mut actions: Vec<FsAction> = Vec::new();
                if backup_exists {
                    let mut bak = self.files[k].1.original_path.clone();
                    bak.append(".bak");
                    actions.push(FsAction::CopyFile {
                        from: bak.clone(),
                        to: self.files[k].1.original_path.clone(),
                    });
                    actions.push(FsAction::RemoveFile { path: bak });
                }
                Ok(actions)
            }
        }
    }
}

/// The name a trashed file gets under the trash root.
pub open spec fn spec_trash_path(trash_root: Seq<char>, original_path: Seq<char>, id: Seq<char>) -> Seq<char> {
    trash_root + "/"@ + id + "-"@ + spec_basename_or_unknown(original_path)
}

/// The piece of a path after its last separator.
pub open spec fn spec_basename(s: Seq<char>) -> Seq<char>
    decreases s.len(),
{
    if s.len() == 0 {
        s
    } else if s[0] == '/' {
        spec_basename(s.skip(1))
    } else {
        let b = spec_basename(s.skip(1));
        if b.len() == s.len() - 1 && !has_slash(s.skip(1)) {
            s
        } else {
            b
        }
    }
}

/// Whether the path holds a separator.
pub open spec fn has_slash(s: Seq<char>) -> bool {
    exists|k: int| 0 <= k < s.len() && s[k] == '/'
}

/// The base name, or a placeholder where the path yields an empty one.
pub open spec fn spec_basename_or_unknown(s: Seq<char>) -> Seq<char> {
    if spec_basename(s).len() == 0 {
        "unknown"@
    } else {
        spec_basename(s)
    }
}

/// The base name of a path, or a placeholder where it is empty.
#[verifier::loop_isolation(false)]
fn basename_or_unknown(path: &str) -> (r: String)
    ensures
        r@ == spec_basename_or_unknown(path@),
{
    let n = path.unicode_len();
    let mut start: usize = 0;
    let mut i: usize = 0;
    proof {
        assert(path@.skip(0) =~= path@);
    }
    while i < n
        invariant
            n == path@.len(),
            0 <= start <= i <= n,
            spec_basename(path@) == spec_basename(path@.skip(start as int)),
            forall|q: int| start <= q < i ==> path@[q] != '/',
        decreases n - i,
    {
        if path.get_char(i) == '/' {
            proof {
                lemma_basename_skips(path@, start as int, i as int);
            }
            start = i + 1;
        }
        i = i + 1;
    }
    proof {
        lemma_basename_tail(path@, start as int);
    }
    let base = path.substring_char(start, n).to_owned();
    if base.as_str().is_empty() {
        "unknown".to_owned()
    } else {
        base
    }
}

/// Skipping through a separator does not change the base name.
proof fn lemma_basename_skips(s: Seq<char>, start: int, i: int)
    requires
        0 <= start <= i < s.len(),
        spec_basename(s) == spec_basename(s.skip(start)),
        forall|q: int| start <= q < i ==> s[q] != '/',
        s[i] == '/',
    ensures
        spec_basename(s) == spec_basename(s.skip(i + 1)),
    decreases i - start,
{
    let t = s.skip(start);
    if start == i {
        assert(t[0] == '/');
        assert(t.skip(1) =~= s.skip(start + 1));
    } else {
        assert(t[0] == s[start]);
        assert(t[0] != '/');
        assert(t.skip(1) =~= s.skip(start + 1));
        // the tail still holds the separator, so the head branch is not taken
        assert(t.skip(1)[i - start - 1] == s[i]);
        assert(has_slash(t.skip(1)));
        assert(spec_basename(t) == spec_basename(t.skip(1)));
        lemma_basename_skips(s, start + 1, i);
    }
}

/// A separator-free tail is its own base name.
proof fn lemma_basename_tail(s: Seq<char>, start: int)
    requires
        0 <= start <= s.len(),
        forall|q: int| start <= q < s.len() ==> s[q] != '/',
    ensures
        spec_basename(s.skip(start)) == s.subrange(start, s.len() as int),
    decreases s.len() - start,
{
    let t = s.skip(start);
    if t.len() == 0 {
        assert(t =~= s.subrange(start, s.len() as int));
    } else {
        assert(t[0] == s[start]);
        assert(t[0] != '/');
        assert(t.skip(1) =~= s.skip(start + 1));
        lemma_basename_tail(s, start + 1);
        assert forall|k: int| 0 <= k < t.skip(1).len() implies t.skip(1)[k] != '/' by {
            assert(t.skip(1)[k] == s[start + 1 + k]);
        }
        assert(!has_slash(t.skip(1)));
        assert(spec_basename(t.skip(1)) == s.subrange(start + 1, s.len() as int));
        assert(spec_basename(t.skip(1)).len() == t.len() - 1);
        assert(spec_basename(t) == t);
        assert(t =~= s.subrange(start, s.len() as int));
    }
}

/// The entry found under an id sits at the index `shadow_find` returns.
proof fn entry_of_is_at(v: Seq<(String, ShadowFileEntry)>, id: Seq<char>, k: int)
    requires
        shadow_wf(v),
        0 <= k < v.len(),
        v[k].0@ == id,
    ensures
        spec_entry_of(v, id) == v[k].1,
        shadow_has(v, id),
{
    let c = choose|c: int| 0 <= c < v.len() && (#[trigger] v[c]).0@ == id;
    if c != k {
        assert(v[if c < k { c } else { k }].0@ != v[if c < k { k } else { c }].0@);
    }
}

/// A set at `k` that keeps the key keeps the index well formed.
proof fn settle_proof(
    oldv: Seq<(String, ShadowFileEntry)>,
    newv: Seq<(String, ShadowFileEntry)>,
    k: int,
)
    requires
        shadow_wf(oldv),
        0 <= k < oldv.len(),
        newv == oldv.update(k, newv[k]),
        newv.len() == oldv.len(),
        newv[k].0@ == oldv[k].0@,
        newv[k].1.id@ == oldv[k].1.id@,
    ensures
        shadow_wf(newv),
        forall|m: int|
            0 <= m < oldv.len() && (#[trigger] oldv[m]).0@ != oldv[k].0@ ==> newv[m] == oldv[m],
        forall|m: int|
            0 <= m < oldv.len() && (#[trigger] oldv[m]).0@ == oldv[k].0@ ==> m == k,
{
    status_change_proof(oldv, newv, k);
    assert forall|m: int|
        0 <= m < oldv.len() && (#[trigger] oldv[m]).0@ == oldv[k].0@ implies m == k by {
        if m != k {
            assert(oldv[if m < k { m } else { k }].0@ != oldv[if m < k { k } else { m }].0@);
        }
    }
}

// ============================================================================
// Cleanup
// ============================================================================

/// The Unix seconds an RFC 3339 timestamp denotes, if it parses; a
/// function of the string alone.
pub uninterp spec fn rfc3339_secs_of(s: Seq<char>) -> Option<i64>;

/// Relies on chrono::DateTime::parse_from_rfc3339 and
/// DateTime::timestamp: parsing is a function of the string alone.
#[verifier::external_body]
fn parse_rfc3339_secs(s: &str) -> (r: Option<i64>)
    ensures
        r == rfc3339_secs_of(s@),
{
    match chrono::DateTime::parse_from_rfc3339(s) {
        Ok(dt) => Some(dt.timestamp()),
        Err(_) => None,
    }
}

/// A settled entry old enough to be swept: applied or rejected, with a
/// parsable creation time more than the threshold of hours in the past.
pub open spec fn cleanup_expired(e: ShadowFileEntry, now_secs: i64, max_age_hours: u64) -> bool {
    &&& (e.status == ShadowStatus::Applied || e.status == ShadowStatus::Rejected)
    &&& rfc3339_secs_of(e.created_at@) matches Some(c) && c >= 0 && now_secs > c && (now_secs - c)
        / 3600 > max_age_hours
}

impl ShadowFs {
    /// Sweep settled entries older than the threshold out of the index;
    /// their shadow files are to be removed, best effort. Entries that
    /// are not yet settled, or not old enough, all stay.
    #[verifier::loop_isolation(false)]
    pub fn cleanup(&mut self, max_age_hours: u64, now_secs: i64) -> (r: (usize, Vec<FsAction>))
        requires
            shadow_wf(old(self).files@),
        ensures
            shadow_wf(final(self).files@),
            final(self).files@.len() + r.0 == old(self).files@.len(),
            r.1@.len() == r.0,
            forall|k: int|
                0 <= k < final(self).files@.len() ==> !cleanup_expired(
                    (#[trigger] final(self).files@[k]).1, now_secs, max_age_hours),
            forall|j: int|
                0 <= j < old(self).files@.len() && !cleanup_expired(
                    (#[trigger] old(self).files@[j]).1, now_secs, max_age_hours)
                    ==> shadow_has(final(self).files@, old(self).files@[j].0@),
            final(self).audit_log == old(self).audit_log,
    {
        let ghost oldv = self.files@;
        let total: usize = self.files.len();
        let mut actions: Vec<FsAction> = Vec::new();
        let mut removed: usize = 0;
        let mut i: usize = 0;
        proof {
            assert(self.files@.skip(0) =~= oldv.skip(0));
        }
        while i < self.files.len()
            invariant
                shadow_wf(self.files@),
                0 <= i <= self.files@.len(),
                total == oldv.len(),
                removed + self.files@.len() == oldv.len(),
                self.audit_log == old(self).audit_log,
                i + removed <= oldv.len(),
                actions@.len() == removed,
                self.files@.skip(i as int) =~= oldv.skip(i as int + removed as int),
                forall|k: int|
                    0 <= k < i ==> !cleanup_expired(
                        (#[trigger] self.files@[k]).1, now_secs, max_age_hours),
                forall|j: int|
                    0 <= j < i + removed && !cleanup_expired(
                        (#[trigger] oldv[j]).1, now_secs, max_age_hours)
                        ==> exists|m: int|
                        0 <= m < i && #[trigger] self.files@[m] == oldv[j],
            decreases self.files@.len() - i,
    {
            let ghost curv = self.files@;
            proof {
                assert(curv[i as int] == curv.skip(i as int)[0]);
                assert(curv[i as int] == oldv[i + removed]);
            }
            let e = &self.files[i].1;
            let expired = (e.status == ShadowStatus::Applied
                || e.status == ShadowStatus::Rejected) && {
                match parse_rfc3339_secs(e.created_at.as_str()) {
                    Some(c) => c >= 0 && now_secs > c && max_age_hours <= 0x7fff_ffff_ffff_ffff
                        && (now_secs - c) / 3600 > max_age_hours as i64,
                    None => false,
                }
            };
            proof {
                if max_age_hours > 0x7fff_ffff_ffff_ffff {
                    // an i64 age in hours can never exceed such a threshold
                    assert((now_secs - rfc3339_secs_of(curv[i as int].1.created_at@)->Some_0)
                        / 3600 <= 0x7fff_ffff_ffff_ffff);
                }
                assert(expired == cleanup_expired(curv[i as int].1, now_secs, max_age_hours));
            }
            if expired {
                let (_key, gone) = self.files.remove(i);
                actions.push(FsAction::RemoveFile { path: gone.shadow_path });
                removed = removed + 1;
                proof {
                    remove_keeps_shadow_wf(curv, i as int);
                    assert forall|m: int|
                        0 <= m < self.files@.skip(i as int).len()
                            implies self.files@.skip(i as int)[m]
                                == oldv.skip(i as int + removed as int)[m] by {
                        assert(self.files@.skip(i as int)[m] == self.files@[i + m]);
                        assert(self.files@[i + m] == curv[i + m + 1]);
                        assert(curv.skip(i as int)[m + 1] == curv[i + m + 1]);
                        assert(oldv.skip(i as int + removed as int - 1)[m + 1]
                            == oldv[i + removed + m]);
                        assert(oldv.skip(i as int + removed as int)[m] == oldv[i + removed + m]);
                    }
                    assert(self.files@.skip(i as int) =~= oldv.skip(i as int + removed as int));
                    assert forall|k: int|
                        0 <= k < i implies !cleanup_expired(
                            (#[trigger] self.files@[k]).1, now_secs, max_age_hours) by {
                        assert(self.files@[k] == curv[k]);
                    }
                    assert forall|j: int|
                        0 <= j < i + removed && !cleanup_expired(
                            (#[trigger] oldv[j]).1, now_secs, max_age_hours)
                            implies exists|m: int|
                            0 <= m < i && #[trigger] self.files@[m] == oldv[j] by {
                        let m0 = choose|m: int| 0 <= m < i && #[trigger] curv[m] == oldv[j];
                        assert(self.files@[m0] == curv[m0]);
                    }
                }
            } else {
                i = i + 1;
                proof {
                    assert forall|m: int|
                        0 <= m < self.files@.skip(i as int).len()
                            implies self.files@.skip(i as int)[m]
                                == oldv.skip(i as int + removed as int)[m] by {
                        assert(self.files@.skip(i as int)[m] == self.files@[i + m]);
                        assert(self.files@.skip(i as int - 1)[m + 1] == self.files@[i + m]);
                        assert(oldv.skip(i as int - 1 + removed as int)[m + 1]
                            == oldv[i + removed + m]);
                        assert(oldv.skip(i as int + removed as int)[m] == oldv[i + removed + m]);
                    }
                    assert(self.files@.skip(i as int) =~= oldv.skip(i as int + removed as int));
                    assert forall|j: int|
                        0 <= j < i + removed && !cleanup_expired(
                            (#[trigger] oldv[j]).1, now_secs, max_age_hours)
                            implies exists|m: int|
                            0 <= m < i && #[trigger] self.files@[m] == oldv[j] by {
                        if j == i - 1 + removed {
                            assert(self.files@[i - 1] == oldv[j]);
                        }
                    }
                }
            }
        }
        proof {
            assert forall|j: int|
                0 <= j < oldv.len() && !cleanup_expired(
                    (#[trigger] oldv[j]).1, now_secs, max_age_hours)
                    implies shadow_has(self.files@, oldv[j].0@) by {
                let m0 = choose|m: int| 0 <= m < i && #[trigger] self.files@[m] == oldv[j];
            }
        }
        (removed, actions)
    }
}

/// Removing an index entry keeps the index well formed.
proof fn remove_keeps_shadow_wf(v: Seq<(String, ShadowFileEntry)>, k: int)
    requires
        shadow_wf(v),
        0 <= k < v.len(),
    ensures
        shadow_wf(v.remove(k)),
{
    let w = v.remove(k);
    assert forall|p: int, q: int|
        0 <= p < q < w.len() implies (#[trigger] w[p]).0@ != (#[trigger] w[q]).0@ by {
        let p0 = if p < k { p } else { p + 1 };
        let q0 = if q < k { q } else { q + 1 };
        assert(w[p] == v[p0]);
        assert(w[q] == v[q0]);
    }
    assert forall|m: int| 0 <= m < w.len() implies (#[trigger] w[m]).1.id@ == w[m].0@ by {
        let m0 = if m < k { m } else { m + 1 };
        assert(w[m] == v[m0]);
    }
}

// ============================================================================
// Laws of the stage → approve → apply lifecycle
// ============================================================================

/// For a stage → approve → apply run on a file whose on-disk content
/// still hashes as it did at staging time, and whose shadow file is
/// intact, the apply is owed success; by `apply`'s contract its one write
/// then carries exactly the staged content, so the post-apply file equals
/// what was staged.
pub proof fn lemma_stage_approve_apply_succeeds(
    s0: ShadowFs,
    s1: ShadowFs,
    s2: ShadowFs,
    original_path: Seq<char>,
    new_content: Seq<char>,
    original_content: Option<String>,
    entry: ShadowFileEntry,
    disk: DiskSnapshot,
)
    requires
        shadow_wf(s1.files@),
        shadow_wf(s2.files@),
        stage_post(s0, s1, original_path, new_content, original_content, None, entry),
        status_change_post(s1.files@, s2.files@, entry.id@, ShadowStatus::Approved),
        s2.files@.len() == s1.files@.len(),
        // the disk as the apply will see it: the original still hashes the
        // same, and the shadow file still holds the staged content
        match original_content {
            Some(c) => disk.original_content matches Some(cur) && spec_hash(cur@) == spec_hash(c@),
            None => true,
        },
        disk.shadow_content matches Some(sc) && sc@ == new_content,
    ensures
        apply_succeeds(s2, entry.id@, disk),
        spec_operation(spec_entry_of(s2.files@, entry.id@)) != PatchOperation::Rename,
{
    let id = entry.id@;
    let k1 = choose|k: int| 0 <= k < s1.files@.len() && (#[trigger] s1.files@[k]).0@ == id;
    assert(entry_eq(s1.files@[k1].1, entry));
    assert(s2.files@[k1].0@ == id);
    entry_of_is_at(s2.files@, id, k1);
    let e2 = spec_entry_of(s2.files@, id);
    assert(e2.status == ShadowStatus::Approved);
    assert(e2.original_hash.deep_view() == entry.original_hash.deep_view());
    match original_content {
        Some(c) => {
            assert(entry.original_hash matches Some(h) && h@ == spec_hash(c@));
            assert(!spec_hash_conflict(e2, disk.original_content));
        }
        None => {
            assert(entry.original_hash is None);
            assert(!spec_hash_conflict(e2, disk.original_content));
        }
    }
    let p1 = s1.files@[k1].1.patch->Some_0;
    let q = entry.patch->Some_0;
    assert(patch_eq(s2.files@[k1].1.patch->Some_0, p1));
    assert(patch_eq(p1, q));
    assert(spec_operation(e2) == q.operation);
    assert(q.operation != PatchOperation::Rename);
}

/// For a stage → approve → external mutation → apply run, the apply hits
/// the conflict check; by `apply`'s contract it then fails with the two
/// hashes, moves the entry to `Conflict`, and orders no file operation,
/// so the file on disk stays as the external writer left it.
pub proof fn lemma_external_change_conflicts(
    s0: ShadowFs,
    s1: ShadowFs,
    s2: ShadowFs,
    original_path: Seq<char>,
    new_content: Seq<char>,
    original_content: String,
    entry: ShadowFileEntry,
    disk: DiskSnapshot,
)
    requires
        shadow_wf(s1.files@),
        shadow_wf(s2.files@),
        stage_post(s0, s1, original_path, new_content, Some(original_content), None, entry),
        status_change_post(s1.files@, s2.files@, entry.id@, ShadowStatus::Approved),
        s2.files@.len() == s1.files@.len(),
        // the original was overwritten between approve and apply
        disk.original_content matches Some(cur) && spec_hash(cur@) != spec_hash(original_content@),
    ensures
        apply_conflicts(s2, entry.id@, disk),
{
    let id = entry.id@;
    let k1 = choose|k: int| 0 <= k < s1.files@.len() && (#[trigger] s1.files@[k]).0@ == id;
    assert(entry_eq(s1.files@[k1].1, entry));
    assert(s2.files@[k1].0@ == id);
    entry_of_is_at(s2.files@, id, k1);
    let e2 = spec_entry_of(s2.files@, id);
    assert(e2.status == ShadowStatus::Approved);
    assert(entry.original_hash matches Some(h) && h@ == spec_hash(original_content@));
    assert(e2.original_hash.deep_view() == entry.original_hash.deep_view());
    assert(e2.original_exists);
    assert(spec_hash_conflict(e2, disk.original_content));
}

// ============================================================================
// Shared specification helpers
// ============================================================================

/// What staging promises: a fresh pending entry keyed by its id stands in
/// the index; its hashes are the content hashes; its patch is the override
/// with the id rewritten, or the computed diff between the current content
/// and the staged content.
pub open spec fn stage_post(
    pre: ShadowFs,
    post: ShadowFs,
    original_path: Seq<char>,
    new_content: Seq<char>,
    original_content: Option<String>,
    patch_override: Option<FilePatch>,
    entry: ShadowFileEntry,
) -> bool {
    &&& entry.original_path@ == original_path
    &&& entry.original_exists == original_content is Some
    &&& (match original_content {
        Some(c) => entry.original_hash matches Some(h) && h@ == spec_hash(c@),
        None => entry.original_hash is None,
    })
    &&& entry.shadow_hash@ == spec_hash(new_content)
    &&& entry.shadow_path@ == pre.shadow_root@ + "/"@ + entry.id@
    &&& entry.status == ShadowStatus::Pending
    &&& entry.reviewed_at is None
    &&& (match patch_override {
        Some(p) => entry.patch matches Some(q) && q.id@ == entry.id@
            && q.hunks == p.hunks && q.operation == p.operation
            && q.full_content == p.full_content
            && q.new_file_path == p.new_file_path,
        None => entry.patch matches Some(q) && computed_patch(
            match original_content {
                Some(c) => c@,
                None => Seq::empty(),
            },
            new_content,
            3,
            original_path,
            q,
        ),
    })
    &&& shadow_has(post.files@, entry.id@)
    &&& forall|k: int|
        0 <= k < post.files@.len() && (#[trigger] post.files@[k]).0@ == entry.id@
            ==> entry_eq(post.files@[k].1, entry)
    &&& post.audit_log == pre.audit_log
    &&& post.shadow_root == pre.shadow_root
    &&& post.trash_root == pre.trash_root
}

/// A status change of one entry: the entry with the id moves to the given
/// status and gets a review time; every other entry and every other field
/// of this one stays.
pub open spec fn status_change_post(
    pre: Seq<(String, ShadowFileEntry)>,
    post: Seq<(String, ShadowFileEntry)>,
    id: Seq<char>,
    status: ShadowStatus,
) -> bool {
    &&& post.len() == pre.len()
    &&& forall|k: int|
        0 <= k < pre.len() && (#[trigger] pre[k]).0@ != id ==> post[k] == pre[k]
    &&& forall|k: int|
        0 <= k < pre.len() && (#[trigger] pre[k]).0@ == id ==> {
            &&& post[k].0@ == id
            &&& post[k].1.status == status
            &&& post[k].1.reviewed_at is Some
            &&& post[k].1.id@ == pre[k].1.id@
            &&& post[k].1.original_path@ == pre[k].1.original_path@
            &&& post[k].1.original_exists == pre[k].1.original_exists
            &&& post[k].1.original_hash.deep_view() == pre[k].1.original_hash.deep_view()
            &&& post[k].1.shadow_path@ == pre[k].1.shadow_path@
            &&& post[k].1.shadow_hash@ == pre[k].1.shadow_hash@
            &&& post[k].1.created_at@ == pre[k].1.created_at@
            &&& (match (post[k].1.patch, pre[k].1.patch) {
                (Some(p), Some(q)) => patch_eq(p, q),
                (None, None) => true,
                _ => false,
            })
        }
}

/// After an upsert at `at`, the index is still well formed and holds the
/// id.
proof fn upsert_wf_proof(
    oldv: Seq<(String, ShadowFileEntry)>,
    newv: Seq<(String, ShadowFileEntry)>,
    at: int,
    id: Seq<char>,
)
    requires
        shadow_wf(oldv),
        0 <= at < newv.len(),
        at <= oldv.len(),
        newv[at].0@ == id,
        newv[at].1.id@ == id,
        at < oldv.len() ==> (newv == oldv.update(at, newv[at]) && oldv[at].0@ == id),
        at == oldv.len() ==> (newv == oldv.push(newv[at]) && !shadow_has(oldv, id)),
    ensures
        shadow_wf(newv),
        shadow_has(newv, id),
{
    assert forall|p: int, q: int|
        0 <= p < q < newv.len() implies (#[trigger] newv[p]).0@ != (#[trigger] newv[q]).0@ by {
        if p != at && q != at {
            assert(newv[p] == oldv[p] && newv[q] == oldv[q]);
        } else if p == at {
            assert(newv[q] == oldv[q]);
            if at < oldv.len() {
                assert(oldv[at].0@ != oldv[q].0@);
            }
        } else {
            assert(newv[p] == oldv[p]);
            if at < oldv.len() {
                assert(oldv[p].0@ != oldv[at].0@);
            } else {
                assert(!shadow_has(oldv, id));
            }
        }
    }
    assert forall|k: int| 0 <= k < newv.len() implies (#[trigger] newv[k]).1.id@ == newv[k].0@ by {
        if k != at {
            assert(newv[k] == oldv[k]);
        }
    }
}

/// A set at `k` that keeps the key and the entry id keeps the index well
/// formed.
proof fn status_change_proof(
    oldv: Seq<(String, ShadowFileEntry)>,
    newv: Seq<(String, ShadowFileEntry)>,
    k: int,
)
    requires
        shadow_wf(oldv),
        0 <= k < oldv.len(),
        newv == oldv.update(k, newv[k]),
        newv.len() == oldv.len(),
        newv[k].0@ == oldv[k].0@,
        newv[k].1.id@ == oldv[k].1.id@,
    ensures
        shadow_wf(newv),
{
    assert forall|p: int, q: int|
        0 <= p < q < newv.len() implies (#[trigger] newv[p]).0@ != (#[trigger] newv[q]).0@ by {
        if p != k {
            assert(newv[p] == oldv[p]);
        }
        if q != k {
            assert(newv[q] == oldv[q]);
        }
        assert(oldv[p].0@ != oldv[q].0@);
    }
    assert forall|m: int| 0 <= m < newv.len() implies (#[trigger] newv[m]).1.id@ == newv[m].0@ by {
        if m != k {
            assert(newv[m] == oldv[m]);
        }
    }
}

} // verus!
