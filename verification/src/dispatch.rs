//! The command dispatcher: routes agent-originated commands through the
//! policy engine, the confirmation broker and the shadow filesystem, and
//! shapes the one response every command gets back.

use vstd::prelude::*;

use crate::clock::now_rfc3339_millis;
use crate::diff::{apply_patch, spec_apply_patch, DiffHunk, FilePatch, PatchOperation};
use crate::ids::new_token;
use crate::policy::audit::AuditEvent;
use crate::policy::commands::{pending_wf, ConfirmationRequest, PolicyEngineState};
use crate::policy::types::{
    EffectContext, EffectPayload, EffectRequest, EffectScope, EffectSource, EffectType,
};
use crate::policy::commands::request_effect_post;
use crate::policy::engine::spec_denied_effect;
use crate::policy::types::{ConfirmationPolicy, PolicyConfig};
use crate::hash::spec_hash;
use crate::shadow::{
    apply_conflicts, apply_success_actions, apply_succeeds, apply_target_blocked, entry_settle_post,
    shadow_has, shadow_wf, spec_entry_of, spec_operation, spec_target_path, status_change_post,
    ApplyResult, DiskSnapshot, FsAction, ShadowFs, ShadowFsError, ShadowStatus,
};
use crate::strutil::spec_starts_with;

verus! {

// ============================================================================
// Wire shapes of patches
// ============================================================================

/// The patch operation as the line protocol spells it.
#[derive(Debug, Clone, Copy, PartialEq, Eq, Structural)]
pub enum ProtocolPatchOperation {
    Create,
    Modify,
    Delete,
    Rename,
}

/// A hunk as the line protocol carries it; the header is optional there.
#[derive(Debug, Clone)]
pub struct ProtocolDiffHunk {
    pub old_start: usize,
    pub old_lines: usize,
    pub new_start: usize,
    pub new_lines: usize,
    pub content: String,
    pub header: Option<String>,
    pub context: Option<String>,
}

/// A patch as the line protocol carries it.
#[derive(Debug, Clone)]
pub struct ProtocolFilePatch {
    pub id: String,
    pub timestamp: String,
    pub file_path: String,
    pub operation: ProtocolPatchOperation,
    pub new_file_path: Option<String>,
    pub hunks: Vec<ProtocolDiffHunk>,
    pub full_content: Option<String>,
    pub additions: usize,
    pub deletions: usize,
    pub description: Option<String>,
}

/// The internal operation a wire operation stands for.
pub open spec fn spec_convert_operation(op: ProtocolPatchOperation) -> PatchOperation {
    match op {
        ProtocolPatchOperation::Create => PatchOperation::Create,
        ProtocolPatchOperation::Modify => PatchOperation::Modify,
        ProtocolPatchOperation::Delete => PatchOperation::Delete,
        ProtocolPatchOperation::Rename => PatchOperation::Rename,
    }
}

/// Convert a wire patch operation to the internal one.
pub fn convert_patch_operation(operation: ProtocolPatchOperation) -> (r: PatchOperation)
    ensures
        r == spec_convert_operation(operation),
{
    match operation {
        ProtocolPatchOperation::Create => PatchOperation::Create,
        ProtocolPatchOperation::Modify => PatchOperation::Modify,
        ProtocolPatchOperation::Delete => PatchOperation::Delete,
        ProtocolPatchOperation::Rename => PatchOperation::Rename,
    }
}

/// The wire hunks converted to internal ones: fields carried over, a
/// missing header becoming the empty string.
pub open spec fn wire_hunks_converted(ws: Seq<ProtocolDiffHunk>, hs: Seq<DiffHunk>) -> bool {
    &&& hs.len() == ws.len()
    &&& forall|k: int| 0 <= k < hs.len() ==> {
        &&& (#[trigger] hs[k]).old_start == ws[k].old_start
        &&& hs[k].old_lines == ws[k].old_lines
        &&& hs[k].new_start == ws[k].new_start
        &&& hs[k].new_lines == ws[k].new_lines
        &&& hs[k].content@ == ws[k].content@
        &&& hs[k].header@ == (match ws[k].header {
            Some(h) => h@,
            None => Seq::<char>::empty(),
        })
        &&& hs[k].context.deep_view() == ws[k].context.deep_view()
    }
}

/// Convert wire hunks to internal ones; a missing header becomes the
/// empty string.
pub fn convert_hunks(hunks: Vec<ProtocolDiffHunk>) -> (r: Vec<DiffHunk>)
    ensures
        wire_hunks_converted(hunks@, r@),
{
    let ghost hv = hunks@;
    let mut r: Vec<DiffHunk> = Vec::new();
    let mut i: usize = 0;
    let n = hunks.len();
    let mut rest = hunks;
    while i < n
        invariant
            n == hv.len(),
            0 <= i <= n,
            rest@ == hv.skip(i as int),
            r@.len() == i,
            forall|k: int| 0 <= k < i ==> {
                &&& (#[trigger] r@[k]).old_start == hv[k].old_start
                &&& r@[k].old_lines == hv[k].old_lines
                &&& r@[k].new_start == hv[k].new_start
                &&& r@[k].new_lines == hv[k].new_lines
                &&& r@[k].content@ == hv[k].content@
                &&& r@[k].header@ == (match hv[k].header {
                    Some(h) => h@,
                    None => Seq::<char>::empty(),
                })
                &&& r@[k].context.deep_view() == hv[k].context.deep_view()
            },
        decreases n - i,
    {
        proof {
            assert(rest@[0] == hv[i as int]);
            assert(rest@.skip(1) =~= hv.skip(i as int + 1));
        }
        let hunk = rest.remove(0);
        r.push(DiffHunk {
            old_start: hunk.old_start,
            old_lines: hunk.old_lines,
            new_start: hunk.new_start,
            new_lines: hunk.new_lines,
            content: hunk.content,
            header: match hunk.header {
                Some(h) => h,
                None => String::new(),
            },
            context: hunk.context,
        });
        i = i + 1;
    }
    r
}

/// Build an internal patch from a wire patch.
pub fn build_file_patch(patch: ProtocolFilePatch) -> (r: FilePatch)
    ensures
        r.id == patch.id,
        r.timestamp == patch.timestamp,
        r.file_path == patch.file_path,
        r.operation == spec_convert_operation(patch.operation),
        r.new_file_path == patch.new_file_path,
        wire_hunks_converted(patch.hunks@, r.hunks@),
        r.full_content == patch.full_content,
        r.additions == patch.additions,
        r.deletions == patch.deletions,
        r.description == patch.description,
{
    FilePatch {
        id: patch.id,
        timestamp: patch.timestamp,
        file_path: patch.file_path,
        operation: convert_patch_operation(patch.operation),
        new_file_path: patch.new_file_path,
        hunks: convert_hunks(patch.hunks),
        full_content: patch.full_content,
        additions: patch.additions,
        deletions: patch.deletions,
        description: patch.description,
    }
}

/// The wire spelling of a patch operation.
pub fn operation_as_str(operation: &PatchOperation) -> (r: &'static str)
    ensures
        r@ == (match operation {
            PatchOperation::Create => "create"@,
            PatchOperation::Modify => "modify"@,
            PatchOperation::Delete => "delete"@,
            PatchOperation::Rename => "rename"@,
        }),
{
    match operation {
        PatchOperation::Create => "create",
        PatchOperation::Modify => "modify",
        PatchOperation::Delete => "delete",
        PatchOperation::Rename => "rename",
    }
}

/// Apply a patch to the given content, with the error flattened to its
/// message.
pub fn apply_patch_to_content(original: &str, patch: FilePatch) -> (r: Result<String, String>)
    ensures
        r matches Ok(s) && s@ == spec_apply_patch(original@, patch),
{
    match apply_patch(original, &patch) {
        Ok(s) => Ok(s),
        Err(_) => Err("patch failed to apply".to_owned()),
    }
}

/// The effect request an apply of a destructive patch must pass through
/// the policy engine first: a filesystem write naming the operation and
/// the path.
pub fn build_effect_request_for_patch(operation: PatchOperation, path: &str) -> (r: EffectRequest)
    ensures
        r.effect_type == EffectType::FilesystemWrite,
        r.source == EffectSource::Agent,
        r.source_id is None,
        r.payload.path matches Some(p) && p@ == path@,
        r.payload.operation matches Some(o) && o@ == (match operation {
            PatchOperation::Create => "create"@,
            PatchOperation::Modify => "modify"@,
            PatchOperation::Delete => "delete"@,
            PatchOperation::Rename => "rename"@,
        }),
        r.payload.command is None,
        r.payload.url is None,
        r.scope is Some,
{
    let mut description = String::new();
    description.append("patch ");
    description.append(operation_as_str(&operation));
    let mut payload = EffectPayload::default();
    payload.path = Some(path.to_owned());
    payload.operation = Some(operation_as_str(&operation).to_owned());
    payload.description = Some(description);
    EffectRequest {
        id: new_token(),
        timestamp: now_rfc3339_millis(),
        effect_type: EffectType::FilesystemWrite,
        source: EffectSource::Agent,
        source_id: None,
        payload,
        context: Some(EffectContext {
            task_id: None,
            tool_name: Some("apply_patch".to_owned()),
            reasoning: Some("Patch apply requires filesystem write".to_owned()),
        }),
        scope: Some(EffectScope::default()),
    }
}

// ============================================================================
// The dispatcher
// ============================================================================

/// An agent-originated command, already parsed off the line protocol.
pub enum AgentCommand {
    RequestEffect { request: EffectRequest },
    ProposePatch { patch: ProtocolFilePatch },
    ApplyPatch { patch_id: String, create_backup: bool },
    RejectPatch { patch_id: String },
    RegisterAgentIdentity { identity: crate::policy::types::AgentIdentity },
    RecordAgentDelegation { delegation: crate::policy::types::AgentDelegation },
    ReportMcpGatewayDecision { decision: crate::policy::types::McpGatewayDecision },
    ReportRuntimeSecurityAlert { alert: crate::policy::types::RuntimeSecurityAlert },
}

/// What the dispatcher read from disk before handling the command: the
/// content of the file a proposed patch is computed against (its source
/// path), the content of the path it is staged at, and the snapshot an
/// apply needs.
pub struct DispatchContext {
    pub source_content: Option<String>,
    pub stage_content: Option<String>,
    pub disk: DiskSnapshot,
}

/// The payload of the one response a command gets.
pub enum DispatchReply {
    EffectDecision { response: crate::policy::types::EffectResponse },
    PatchProposed { patch_id: String, shadow_path: String },
    PatchApplied {
        patch_id: String,
        success: bool,
        file_path: String,
        backup_path: Option<String>,
        error: Option<String>,
    },
    PatchRejected { patch_id: String },
    Acknowledged { success: bool },
    Failed { error: String },
}

/// Everything one dispatched command produced: the response to send back,
/// the audit records, the confirmation prompt to surface, and the file
/// operations to perform.
pub struct DispatchOutcome {
    pub response_type: String,
    pub command_id: String,
    pub reply: DispatchReply,
    pub audits: Vec<AuditEvent>,
    pub confirmation: Option<ConfirmationRequest>,
    pub actions: Vec<FsAction>,
}

/// The components a dispatched command runs through.
pub struct Dispatcher {
    pub policy: PolicyEngineState,
    pub shadow: ShadowFs,
}

/// The response type tag of each command.
pub open spec fn spec_response_type(cmd: AgentCommand) -> Seq<char> {
    match cmd {
        AgentCommand::RequestEffect { .. } => "request_effect_response"@,
        AgentCommand::ProposePatch { .. } => "propose_patch_response"@,
        AgentCommand::ApplyPatch { .. } => "apply_patch_response"@,
        AgentCommand::RejectPatch { .. } => "reject_patch_response"@,
        AgentCommand::RegisterAgentIdentity { .. } => "register_agent_identity_response"@,
        AgentCommand::RecordAgentDelegation { .. } => "record_agent_delegation_response"@,
        AgentCommand::ReportMcpGatewayDecision { .. } => "report_mcp_gateway_decision_response"@,
        AgentCommand::ReportRuntimeSecurityAlert { .. } =>
            "report_runtime_security_alert_response"@,
    }
}

/// The path a proposed patch is staged at: the rename source, else the
/// target.
pub open spec fn spec_stage_path(patch: ProtocolFilePatch) -> Seq<char> {
    if patch.operation == ProtocolPatchOperation::Rename {
        patch.file_path@
    } else {
        match patch.new_file_path {
            Some(t) => t@,
            None => patch.file_path@,
        }
    }
}

/// The content a proposed patch stages, computed against the source text:
/// the carried full content; the empty text for a delete, or for a create
/// that carries no content; the source itself for a rename; the replayed
/// hunks for a modify.
pub open spec fn spec_synthesized_content(
    patch: ProtocolFilePatch,
    source: Option<String>,
    content: Seq<char>,
) -> bool {
    match patch.full_content {
        Some(full) => content == full@,
        None => {
            if patch.operation == ProtocolPatchOperation::Delete {
                content == Seq::<char>::empty()
            } else if patch.operation == ProtocolPatchOperation::Rename {
                source matches Some(c) && content == c@
            } else if patch.operation == ProtocolPatchOperation::Create {
                content == Seq::<char>::empty()
            } else {
                let base = match source {
                    Some(c) => c@,
                    None => Seq::<char>::empty(),
                };
                exists|hs: Seq<DiffHunk>|
                    #![trigger wire_hunks_converted(patch.hunks@, hs)]
                    wire_hunks_converted(patch.hunks@, hs) && content == crate::text::join_lines(
                        crate::diff::spec_apply_modify(crate::text::spec_lines(base), hs),
                    )
            }
        }
    }
}

/// A staged proposal, as the dispatcher promises it: the one ordered
/// action writes the synthesized content to the fresh shadow file, and
/// the entry held under the returned id records the stage path, the
/// hashes, and the converted patch.
pub open spec fn propose_staged_post(
    pre: ShadowFs,
    post: ShadowFs,
    patch: ProtocolFilePatch,
    source: Option<String>,
    staged: Option<String>,
    r: DispatchOutcome,
) -> bool {
    r.reply matches DispatchReply::PatchProposed { patch_id, shadow_path } ==> {
        &&& r.actions@.len() == 1
        &&& (r.actions@[0] matches FsAction::WriteFile { path, content } && {
            &&& path@ == shadow_path@
            &&& spec_synthesized_content(patch, source, content@)
            &&& shadow_has(post.files@, patch_id@)
            &&& forall|k: int|
                0 <= k < post.files@.len() && (#[trigger] post.files@[k]).0@ == patch_id@ ==> {
                    let e = post.files@[k].1;
                    &&& e.status == ShadowStatus::Pending
                    &&& e.original_path@ == spec_stage_path(patch)
                    &&& e.shadow_path@ == shadow_path@
                    &&& e.shadow_hash@ == spec_hash(content@)
                    &&& (match staged {
                        Some(c) => e.original_exists && (e.original_hash matches Some(h) && h@
                            == spec_hash(c@)),
                        None => !e.original_exists && e.original_hash is None,
                    })
                    &&& (e.patch matches Some(q) && {
                        &&& q.id@ == patch_id@
                        &&& q.operation == spec_convert_operation(patch.operation)
                        &&& q.new_file_path.deep_view() == patch.new_file_path.deep_view()
                        &&& q.full_content.deep_view() == patch.full_content.deep_view()
                        &&& wire_hunks_converted(patch.hunks@, q.hunks@)
                    })
                }
        })
    }
}

/// The policy configuration lets a destructive filesystem write to the
/// path through without asking: writes auto-approve and no blocklist
/// entry prefixes the path.
pub open spec fn destructive_gate_passes(cfg: PolicyConfig, path: Seq<char>) -> bool {
    &&& !spec_denied_effect(cfg, EffectType::FilesystemWrite)
    &&& !(exists|i: int|
        0 <= i < cfg.blocklists.paths@.len() && spec_starts_with(
            path,
            (#[trigger] cfg.blocklists.paths@[i])@,
        ))
    &&& crate::policy::types::spec_policy_for(cfg.default_policies@, EffectType::FilesystemWrite)
        == ConfirmationPolicy::Never
}

/// The stored entry under the id is a delete or a rename, which must pass
/// the policy engine before it is applied.
pub open spec fn spec_destructive(sh: ShadowFs, id: Seq<char>) -> bool {
    &&& shadow_has(sh.files@, id)
    &&& (spec_operation(spec_entry_of(sh.files@, id)) == PatchOperation::Delete
        || spec_operation(spec_entry_of(sh.files@, id)) == PatchOperation::Rename)
}

impl Dispatcher {
    /// Handle one agent-originated command. Every command gets exactly
    /// one response back. The only file operations ever ordered are a
    /// proposal's own shadow-file write, the moves and writes of an apply
    /// that passed the policy engine and the conflict check, and the
    /// shadow-file removal of a reject.
    pub fn handle_sidecar_command(
        &mut self,
        command_id: String,
        cmd: AgentCommand,
        ctx: DispatchContext,
    ) -> (r: DispatchOutcome)
        requires
            pending_wf(old(self).policy.pending_confirmations@),
            crate::policy::commands::keys_unique(old(self).policy.identities@),
            shadow_wf(old(self).shadow.files@),
        ensures
            pending_wf(final(self).policy.pending_confirmations@),
            crate::policy::commands::keys_unique(final(self).policy.identities@),
            shadow_wf(final(self).shadow.files@),
            r.response_type@ == spec_response_type(cmd),
            r.command_id == command_id,
            // a decided effect request is answered and audited exactly once,
            // as the broker's contract says; the staging area is untouched
            cmd matches AgentCommand::RequestEffect { request } ==> {
                &&& (r.reply matches DispatchReply::EffectDecision { response }
                    && request_effect_post(old(self).policy, final(self).policy, request,
                        response, r.audits@[0], r.confirmation))
                &&& r.audits@.len() == 1
                &&& r.actions@.len() == 0
                &&& final(self).shadow == old(self).shadow
            },
            // a proposal stages the synthesized content and orders exactly
            // its shadow-file write; on failure nothing changes
            cmd matches AgentCommand::ProposePatch { patch } ==> {
                &&& (r.reply matches DispatchReply::PatchProposed { .. } || r.reply
                    matches DispatchReply::Failed { .. })
                // success is owed unless a rename's source could not be read
                &&& ((patch.full_content is Some || patch.operation
                    != ProtocolPatchOperation::Rename || ctx.source_content is Some)
                    ==> r.reply matches DispatchReply::PatchProposed { .. })
                &&& propose_staged_post(old(self).shadow, final(self).shadow, patch,
                    ctx.source_content, ctx.stage_content, r)
                &&& (r.reply matches DispatchReply::Failed { .. } ==> final(self).shadow
                    == old(self).shadow && r.actions@.len() == 0)
                &&& final(self).policy == old(self).policy
            },
            // an apply answers with the staging area's own verdict; a
            // destructive patch the policy engine did not wave through is
            // answered unapplied, with no file operation and the staging
            // area as it was
            cmd matches AgentCommand::ApplyPatch { patch_id, create_backup } ==> {
                let sh = old(self).shadow;
                let gated = spec_destructive(sh, patch_id@) && !destructive_gate_passes(
                    old(self).policy.engine.config,
                    spec_entry_of(sh.files@, patch_id@).original_path@,
                );
                &&& (r.reply matches DispatchReply::PatchApplied { .. })
                &&& (r.reply matches DispatchReply::PatchApplied { success, .. } && !success
                    ==> r.actions@.len() == 0)
                &&& (gated ==> ((r.reply matches DispatchReply::PatchApplied { success, .. }
                    && !success) && final(self).shadow == sh))
                &&& (!gated ==> {
                    &&& (!shadow_has(sh.files@, patch_id@) ==> ((r.reply
                        matches DispatchReply::PatchApplied { success, .. } && !success)
                        && final(self).shadow == sh))
                    &&& (shadow_has(sh.files@, patch_id@) && spec_entry_of(sh.files@,
                        patch_id@).status != ShadowStatus::Approved ==> ((r.reply
                        matches DispatchReply::PatchApplied { success, error, .. } && !success
                        && (error matches Some(m) && m@ == "File not approved"@))
                        && final(self).shadow == sh))
                    &&& (apply_conflicts(sh, patch_id@, ctx.disk) ==> {
                        &&& (r.reply matches DispatchReply::PatchApplied { success, .. }
                            && !success)
                        &&& entry_settle_post(sh.files@, final(self).shadow.files@, patch_id@,
                            ShadowStatus::Conflict,
                            spec_entry_of(sh.files@, patch_id@).original_path@)
                        &&& final(self).shadow.audit_log@.last().action@ == "conflict"@
                    })
                    &&& (apply_target_blocked(sh, patch_id@, ctx.disk) ==> ((r.reply
                        matches DispatchReply::PatchApplied { success, .. } && !success)
                        && final(self).shadow == sh))
                    &&& (apply_succeeds(sh, patch_id@, ctx.disk) ==> {
                        let e = spec_entry_of(sh.files@, patch_id@);
                        &&& (r.reply matches DispatchReply::PatchApplied {
                            success,
                            file_path,
                            backup_path,
                            error,
                            ..
                        } && success && apply_success_actions(sh, patch_id@, create_backup,
                            ctx.disk, ApplyResult { success, file_path, backup_path, error },
                            r.actions@))
                        &&& entry_settle_post(sh.files@, final(self).shadow.files@, patch_id@,
                            ShadowStatus::Applied, if spec_operation(e)
                            == PatchOperation::Rename {
                            spec_target_path(e)
                        } else {
                            e.original_path@
                        })
                        &&& final(self).shadow.audit_log@.len() == sh.audit_log@.len() + 1
                    })
                })
            },
            // a reject settles the entry and orders exactly the removal of
            // its shadow file
            cmd matches AgentCommand::RejectPatch { patch_id } ==> {
                let sh = old(self).shadow;
                &&& (shadow_has(sh.files@, patch_id@) ==> {
                    &&& (r.reply matches DispatchReply::PatchRejected { patch_id: pid }
                        && pid@ == patch_id@)
                    &&& status_change_post(sh.files@, final(self).shadow.files@, patch_id@,
                        ShadowStatus::Rejected)
                    &&& r.actions@.len() == 1
                    &&& (r.actions@[0] matches FsAction::RemoveFile { path }
                        && path@ == spec_entry_of(sh.files@, patch_id@).shadow_path@)
                    &&& final(self).shadow.audit_log@.last().action@ == "reject"@
                })
                &&& (!shadow_has(sh.files@, patch_id@) ==> ((r.reply
                    matches DispatchReply::Failed { .. }) && final(self).shadow == sh
                    && r.actions@.len() == 0))
                &&& final(self).policy == old(self).policy
            },
            // the four registry commands acknowledge and record
            cmd matches AgentCommand::RegisterAgentIdentity { identity } ==> {
                &&& (r.reply matches DispatchReply::Acknowledged { success } && success)
                &&& crate::policy::commands::has_key(final(self).policy.identities@,
                    identity.session_id@)
                &&& forall|k: int|
                    0 <= k < final(self).policy.identities@.len()
                        && (#[trigger] final(self).policy.identities@[k]).0@
                            == identity.session_id@
                        ==> final(self).policy.identities@[k].1 == identity
                &&& r.actions@.len() == 0
                &&& final(self).shadow == old(self).shadow
            },
            cmd matches AgentCommand::RecordAgentDelegation { delegation } ==> {
                &&& (r.reply matches DispatchReply::Acknowledged { success } && success)
                &&& final(self).policy.delegations@ == old(self).policy.delegations@.push(
                    delegation)
                &&& r.actions@.len() == 0
                &&& final(self).shadow == old(self).shadow
            },
            cmd matches AgentCommand::ReportMcpGatewayDecision { decision } ==> {
                &&& (r.reply matches DispatchReply::Acknowledged { success } && success)
                &&& final(self).policy.mcp_decisions@ == old(self).policy.mcp_decisions@.push(
                    decision)
                &&& r.actions@.len() == 0
                &&& final(self).shadow == old(self).shadow
            },
            cmd matches AgentCommand::ReportRuntimeSecurityAlert { alert } ==> {
                &&& (r.reply matches DispatchReply::Acknowledged { success } && success)
                &&& final(self).policy.runtime_alerts@ == old(self).policy.runtime_alerts@.push(
                    alert)
                &&& r.actions@.len() == 0
                &&& final(self).shadow == old(self).shadow
            },
    {
        match cmd {
            AgentCommand::RequestEffect { request } => {
                let out = self.policy.request_effect(request);
                let mut audits: Vec<AuditEvent> = Vec::new();
                audits.push(out.audit);
                DispatchOutcome {
                    response_type: "request_effect_response".to_owned(),
                    command_id,
                    reply: DispatchReply::EffectDecision { response: out.response },
                    audits,
                    confirmation: out.confirmation,
                    actions: Vec::new(),
                }
            }
            AgentCommand::ProposePatch { patch } => {
                let ghost wire = patch;
                let operation = patch.operation;
                let file_path = patch.file_path.clone();
                let new_file_path = crate::strutil::clone_opt_string(&patch.new_file_path);
                let internal = build_file_patch(patch);
                let staged_override = internal.duplicate();
                // the path staged: the rename source, else the target
                let stage_path: String = if operation == ProtocolPatchOperation::Rename {
                    file_path.clone()
                } else {
                    match new_file_path {
                        Some(t) => t,
                        None => file_path.clone(),
                    }
                };
                let ghost gip = internal;
                let content_result: Result<String, String> = match &internal.full_content {
                    Some(full) => Ok(full.clone()),
                    None => {
                        if operation == ProtocolPatchOperation::Delete {
                            Ok(String::new())
                        } else if operation == ProtocolPatchOperation::Rename {
                            match &ctx.source_content {
                                Some(c) => Ok(c.clone()),
                                None => Err("source file could not be read".to_owned()),
                            }
                        } else {
                            let empty = String::new();
                            let base: &String = match &ctx.source_content {
                                Some(c) => c,
                                None => &empty,
                            };
                            apply_patch_to_content(base.as_str(), internal)
                        }
                    }
                };
                let content = match content_result {
                    Ok(c) => c,
                    Err(e) => {
                        return DispatchOutcome {
                            response_type: "propose_patch_response".to_owned(),
                            command_id,
                            reply: DispatchReply::Failed { error: e },
                            audits: Vec::new(),
                            confirmation: None,
                            actions: Vec::new(),
                        };
                    }
                };
                proof {
                    assert(spec_synthesized_content(wire, ctx.source_content, content@));
                }
                let staged = self.shadow.stage_file_with_patch(
                    stage_path,
                    content,
                    ctx.stage_content,
                    Some(staged_override),
                );
                match staged {
                    Ok((entry, actions)) => {
                        let ghost gentry = entry;
                        proof {
                            assert(wire_hunks_converted(wire.hunks@, gip.hunks@));
                            assert forall|k: int|
                                0 <= k < staged_override.hunks@.len() implies {
                                    &&& (#[trigger] staged_override.hunks@[k]).old_start
                                        == wire.hunks@[k].old_start
                                    &&& staged_override.hunks@[k].old_lines
                                        == wire.hunks@[k].old_lines
                                    &&& staged_override.hunks@[k].new_start
                                        == wire.hunks@[k].new_start
                                    &&& staged_override.hunks@[k].new_lines
                                        == wire.hunks@[k].new_lines
                                    &&& staged_override.hunks@[k].content@
                                        == wire.hunks@[k].content@
                                    &&& staged_override.hunks@[k].header@ == (
                                    match wire.hunks@[k].header {
                                        Some(h) => h@,
                                        None => Seq::<char>::empty(),
                                    })
                                    &&& staged_override.hunks@[k].context.deep_view()
                                        == wire.hunks@[k].context.deep_view()
                                } by {
                                assert(crate::diff::hunk_eq(
                                    gip.hunks@[k],
                                    staged_override.hunks@[k],
                                ));
                                assert(gip.hunks@[k].old_start == wire.hunks@[k].old_start);
                            }
                            assert(wire_hunks_converted(wire.hunks@, staged_override.hunks@));
                        }
                        DispatchOutcome {
                            response_type: "propose_patch_response".to_owned(),
                            command_id,
                            reply: DispatchReply::PatchProposed {
                                patch_id: entry.id,
                                shadow_path: entry.shadow_path,
                            },
                            audits: Vec::new(),
                            confirmation: None,
                            actions,
                        }
                    }
                    Err(_) => DispatchOutcome {
                        response_type: "propose_patch_response".to_owned(),
                        command_id,
                        reply: DispatchReply::Failed { error: "staging failed".to_owned() },
                        audits: Vec::new(),
                        confirmation: None,
                        actions: Vec::new(),
                    },
                }
            }
            AgentCommand::ApplyPatch { patch_id, create_backup } => {
                // destructive operations pass the policy engine first
                let (gate_operation, gate_path): (Option<PatchOperation>, Option<String>) = match
                    self.shadow.get(patch_id.as_str()) {
                    Some(entry) => (
                        match &entry.patch {
                            Some(p) => Some(p.operation),
                            None => None,
                        },
                        Some(entry.original_path.clone()),
                    ),
                    None => (None, None),
                };
                let mut audits: Vec<AuditEvent> = Vec::new();
                let mut confirmation: Option<ConfirmationRequest> = None;
                if let (Some(op), Some(path)) = (gate_operation, &gate_path) {
                    if op == PatchOperation::Delete || op == PatchOperation::Rename {
                        let gate_request = build_effect_request_for_patch(op, path.as_str());
                        let ghost greq = gate_request;
                        let out = self.policy.request_effect(gate_request);
                        proof {
                            gate_outcome_is_decision(
                                old(self).policy.engine.config,
                                greq,
                                path@,
                                out.response.approved,
                            );
                        }
                        audits.push(out.audit);
                        confirmation = out.confirmation;
                        if !out.response.approved {
                            let error: String = match out.response.denial_reason {
                                Some(reason) => reason,
                                None => "awaiting_confirmation".to_owned(),
                            };
                            return DispatchOutcome {
                                response_type: "apply_patch_response".to_owned(),
                                command_id,
                                reply: DispatchReply::PatchApplied {
                                    patch_id,
                                    success: false,
                                    file_path: path.clone(),
                                    backup_path: None,
                                    error: Some(error),
                                },
                                audits,
                                confirmation,
                                actions: Vec::new(),
                            };
                        }
                    }
                }
                let applied = self.shadow.apply(patch_id.as_str(), create_backup, &ctx.disk);
                match applied {
                    Ok((result, actions)) => {
                        let reply_actions: Vec<FsAction> = if result.success {
                            actions
                        } else {
                            Vec::new()
                        };
                        DispatchOutcome {
                            response_type: "apply_patch_response".to_owned(),
                            command_id,
                            reply: DispatchReply::PatchApplied {
                                patch_id,
                                success: result.success,
                                file_path: result.file_path,
                                backup_path: result.backup_path,
                                error: result.error,
                            },
                            audits,
                            confirmation,
                            actions: reply_actions,
                        }
                    }
                    Err(err) => {
                        let message: String = match err {
                            ShadowFsError::Conflict { .. } =>
                                "conflict: file changed since staging".to_owned(),
                            ShadowFsError::NotFound(_) => "patch not found".to_owned(),
                            ShadowFsError::TargetExists(_) =>
                                "rename target already exists".to_owned(),
                            _ => "apply failed".to_owned(),
                        };
                        DispatchOutcome {
                            response_type: "apply_patch_response".to_owned(),
                            command_id,
                            reply: DispatchReply::PatchApplied {
                                patch_id,
                                success: false,
                                file_path: match gate_path {
                                    Some(p) => p,
                                    None => String::new(),
                                },
                                backup_path: None,
                                error: Some(message),
                            },
                            audits,
                            confirmation,
                            actions: Vec::new(),
                        }
                    }
                }
            }
            AgentCommand::RejectPatch { patch_id } => {
                let rejected = self.shadow.reject(patch_id.as_str());
                match rejected {
                    Ok(actions) => DispatchOutcome {
                        response_type: "reject_patch_response".to_owned(),
                        command_id,
                        reply: DispatchReply::PatchRejected { patch_id },
                        audits: Vec::new(),
                        confirmation: None,
                        actions,
                    },
                    Err(_) => DispatchOutcome {
                        response_type: "reject_patch_response".to_owned(),
                        command_id,
                        reply: DispatchReply::Failed { error: "patch not found".to_owned() },
                        audits: Vec::new(),
                        confirmation: None,
                        actions: Vec::new(),
                    },
                }
            }
            AgentCommand::RegisterAgentIdentity { identity } => {
                let ok = self.policy.register_agent_identity(identity);
                DispatchOutcome {
                    response_type: "register_agent_identity_response".to_owned(),
                    command_id,
                    reply: DispatchReply::Acknowledged { success: ok.is_ok() },
                    audits: Vec::new(),
                    confirmation: None,
                    actions: Vec::new(),
                }
            }
            AgentCommand::RecordAgentDelegation { delegation } => {
                let ok = self.policy.record_agent_delegation(delegation);
                DispatchOutcome {
                    response_type: "record_agent_delegation_response".to_owned(),
                    command_id,
                    reply: DispatchReply::Acknowledged { success: ok.is_ok() },
                    audits: Vec::new(),
                    confirmation: None,
                    actions: Vec::new(),
                }
            }
            AgentCommand::ReportMcpGatewayDecision { decision } => {
                let ok = self.policy.report_mcp_gateway_decision(decision);
                DispatchOutcome {
                    response_type: "report_mcp_gateway_decision_response".to_owned(),
                    command_id,
                    reply: DispatchReply::Acknowledged { success: ok.is_ok() },
                    audits: Vec::new(),
                    confirmation: None,
                    actions: Vec::new(),
                }
            }
            AgentCommand::ReportRuntimeSecurityAlert { alert } => {
                let ok = self.policy.report_runtime_security_alert(alert);
                DispatchOutcome {
                    response_type: "report_runtime_security_alert_response".to_owned(),
                    command_id,
                    reply: DispatchReply::Acknowledged { success: ok.is_ok() },
                    audits: Vec::new(),
                    confirmation: None,
                    actions: Vec::new(),
                }
            }
        }
    }
}

/// A gate request built for a destructive patch is approved exactly when
/// the configuration waves filesystem writes to its path through: it
/// carries no command and no URL, so only the path blocklist can hit it.
proof fn gate_outcome_is_decision(
    cfg: PolicyConfig,
    greq: crate::policy::types::EffectRequest,
    path: Seq<char>,
    approved: bool,
)
    requires
        greq.effect_type == EffectType::FilesystemWrite,
        greq.payload.path matches Some(p) && p@ == path,
        greq.payload.command is None,
        greq.payload.url is None,
        ({
            let c = cfg;
            if crate::policy::engine::spec_denied_effect(c, greq.effect_type)
                || crate::policy::engine::spec_blocklisted(c, greq) {
                approved == false
            } else if crate::policy::types::spec_policy_for(c.default_policies@, greq.effect_type)
                == ConfirmationPolicy::Never {
                approved == true
            } else {
                approved == false
            }
        }),
    ensures
        approved == destructive_gate_passes(cfg, path),
{
    assert(!crate::policy::engine::spec_command_blocked(cfg, greq));
    assert(!crate::policy::engine::spec_url_blocked(cfg, greq));
    if crate::policy::engine::spec_path_blocked(cfg, greq) {
        let i = choose|i: int|
            0 <= i < cfg.blocklists.paths@.len() && spec_starts_with(
                greq.payload.path->Some_0@,
                (#[trigger] cfg.blocklists.paths@[i])@,
            );
        assert(spec_starts_with(path, cfg.blocklists.paths@[i]@));
    }
    if exists|i: int|
        0 <= i < cfg.blocklists.paths@.len() && spec_starts_with(
            path,
            (#[trigger] cfg.blocklists.paths@[i])@,
        ) {
        let i = choose|i: int|
            0 <= i < cfg.blocklists.paths@.len() && spec_starts_with(
                path,
                (#[trigger] cfg.blocklists.paths@[i])@,
            );
        assert(spec_starts_with(greq.payload.path->Some_0@, cfg.blocklists.paths@[i]@));
        assert(crate::policy::engine::spec_path_blocked(cfg, greq));
    }
}

} // verus!
