//! The session-scoped policy gate: a secondary engine that knows the
//! registered agent sessions, remembers per-session approval patterns
//! with an expiry, checks static allow and deny rules, and scores the
//! risk of each request.

use vstd::prelude::*;

use crate::clock::now_unix_secs;
use crate::diff::dec_str;
use crate::diff::usize_to_string;
use crate::strutil::{
    clone_string_vec, spec_contains, spec_ends_with, spec_starts_with, str_contains,
    str_ends_with, str_eq, str_starts_with,
};

verus! {

/// The closed set of effects this gate scores.
#[derive(Debug, Clone, Copy, PartialEq, Eq, Structural, Hash)]
pub enum EffectType {
    FilesystemRead,
    FilesystemWrite,
    ShellRead,
    ShellWrite,
    NetworkOutbound,
    SecretsRead,
    ScreenCapture,
    UiControl,
}

/// Where a request came from.
#[derive(Debug, Clone, Copy, PartialEq, Eq, Structural)]
pub enum EffectSource {
    Agent,
    Toolpack,
    ClaudeSkill,
}

/// A write mode: staged in the shadow area, a reviewed patch, or a
/// direct write.
#[derive(Debug, Clone, Copy, PartialEq, Eq, Structural)]
pub enum WriteMode {
    Shadow,
    Direct,
    Patch,
}

/// A screen region.
#[derive(Debug, Clone, Copy, PartialEq, Eq, Structural)]
pub struct CaptureRegion {
    pub x: i32,
    pub y: i32,
    pub width: u32,
    pub height: u32,
}

/// The tagged payload of a gate request.
#[derive(Debug, Clone)]
pub enum EffectPayload {
    FilesystemWrite {
        mode: WriteMode,
        target_path: String,
        content: Option<String>,
        patch: Option<String>,
        backup: bool,
    },
    ShellWrite {
        command: String,
        cwd: Option<String>,
        env: Option<Vec<(String, String)>>,
        timeout_ms: u64,
    },
    NetworkOutbound {
        url: String,
        method: String,
        headers: Option<Vec<(String, String)>>,
        body: Option<String>,
    },
    ScreenCapture { region: Option<CaptureRegion> },
}

/// The identity of a registered agent session.
#[derive(Debug, Clone)]
pub struct AgentIdentity {
    pub session_id: String,
    pub parent_session: Option<String>,
    pub user_id: String,
    pub created_at: u64,
    pub capabilities: Vec<EffectType>,
    pub ephemeral: bool,
}

/// A gate request.
#[derive(Debug, Clone)]
pub struct EffectRequest {
    pub request_id: String,
    pub session_id: String,
    pub source: EffectSource,
    pub source_id: String,
    pub effect: EffectPayload,
    pub risk_score: Option<u8>,
    pub justification: Option<String>,
}

/// The engine's verdict.
#[derive(Debug, Clone, Copy, PartialEq, Eq, Structural)]
pub enum Decision {
    Approve,
    Deny,
    ConfirmRequired,
}

/// Narrowing this engine attaches to a verdict.
#[derive(Debug, Clone)]
pub struct ScopeRestrictions {
    pub allowlist: Option<Vec<String>>,
    pub denylist: Option<Vec<String>>,
    pub redact_patterns: Option<Vec<String>>,
}

/// The engine's full answer.
#[derive(Debug, Clone)]
pub struct PolicyDecision {
    pub request_id: String,
    pub decision: Decision,
    pub reason: Option<String>,
    pub scope_restrictions: Option<ScopeRestrictions>,
    pub auto_approve_similar: bool,
}

/// A remembered per-session approval, valid until it expires.
#[derive(Debug, Clone)]
pub struct ApprovalPattern {
    pub effect_type: EffectType,
    pub pattern: String,
    pub expires_at: u64,
}

/// The user's standing rules.
#[derive(Debug, Clone)]
pub struct UserPolicies {
    pub global_denylist: Vec<(EffectType, Vec<String>)>,
    pub workspace_allowlist: Vec<String>,
    pub command_allowlist: Vec<String>,
    pub domain_allowlist: Vec<String>,
    pub requires_confirmation: Vec<EffectType>,
}

impl Default for UserPolicies {
    /// The standing defaults: destructive shell fragments and onion
    /// domains denied, a small command and domain allowlist, and
    /// confirmation for the sensitive effect types.
    fn default() -> (r: Self)
        ensures
            r.global_denylist@.len() == 2,
            r.global_denylist@[0].0 == EffectType::ShellWrite,
            r.global_denylist@[0].1@.len() == 2,
            r.global_denylist@[0].1@[0]@ == "rm -rf /"@,
            r.global_denylist@[0].1@[1]@ == "sudo"@,
            r.global_denylist@[1].0 == EffectType::NetworkOutbound,
            r.global_denylist@[1].1@.len() == 1,
            r.global_denylist@[1].1@[0]@ == "*.onion"@,
            r.workspace_allowlist@.len() == 0,
            r.command_allowlist@.len() == 4,
            r.command_allowlist@[0]@ == "git"@,
            r.command_allowlist@[1]@ == "npm"@,
            r.command_allowlist@[2]@ == "cargo"@,
            r.command_allowlist@[3]@ == "python"@,
            r.domain_allowlist@.len() == 2,
            r.domain_allowlist@[0]@ == "github.com"@,
            r.domain_allowlist@[1]@ == "anthropic.com"@,
            r.requires_confirmation@ =~= seq![
                EffectType::FilesystemWrite,
                EffectType::ShellWrite,
                EffectType::SecretsRead,
                EffectType::UiControl,
            ],
    {
        let mut shell_denied: Vec<String> = Vec::new();
        shell_denied.push("rm -rf /".to_owned());
        shell_denied.push("sudo".to_owned());
        let mut net_denied: Vec<String> = Vec::new();
        net_denied.push("*.onion".to_owned());
        let mut global_denylist: Vec<(EffectType, Vec<String>)> = Vec::new();
        global_denylist.push((EffectType::ShellWrite, shell_denied));
        global_denylist.push((EffectType::NetworkOutbound, net_denied));

        let mut command_allowlist: Vec<String> = Vec::new();
        command_allowlist.push("git".to_owned());
        command_allowlist.push("npm".to_owned());
        command_allowlist.push("cargo".to_owned());
        command_allowlist.push("python".to_owned());

        let mut domain_allowlist: Vec<String> = Vec::new();
        domain_allowlist.push("github.com".to_owned());
        domain_allowlist.push("anthropic.com".to_owned());

        let mut requires_confirmation: Vec<EffectType> = Vec::new();
        requires_confirmation.push(EffectType::FilesystemWrite);
        requires_confirmation.push(EffectType::ShellWrite);
        requires_confirmation.push(EffectType::SecretsRead);
        requires_confirmation.push(EffectType::UiControl);

        UserPolicies {
            global_denylist,
            workspace_allowlist: Vec::new(),
            command_allowlist,
            domain_allowlist,
            requires_confirmation,
        }
    }
}

/// The audit line writer; composing the lines happens here, putting
/// them on the console or on disk is the embedding application's.
#[derive(Debug, Clone)]
pub struct AuditWriter {
    pub log_path: String,
}

impl AuditWriter {
    /// A writer for the given path.
    pub fn new(log_path: String) -> (r: Self)
        ensures
            r.log_path == log_path,
    {
        AuditWriter { log_path }
    }

    /// The audit line of a decision.
    pub fn log_decision(&self, request: &EffectRequest, decision: &PolicyDecision) -> (r: String)
        ensures
            r@ == "AUDIT: "@ + request.request_id@ + " -> "@ + spec_decision_name(
                decision.decision),
    {
        let mut r = String::new();
        r.append("AUDIT: ");
        r.append(request.request_id.as_str());
        r.append(" -> ");
        r.append(decision_name(decision.decision));
        r
    }

    /// The audit line of an auto-approval.
    pub fn log_auto_approval(&self, request: &EffectRequest) -> (r: String)
        ensures
            r@ == "AUDIT: Auto-approved "@ + request.request_id@,
    {
        let mut r = String::new();
        r.append("AUDIT: Auto-approved ");
        r.append(request.request_id.as_str());
        r
    }

    /// The audit line of an executed effect.
    pub fn log_execution(&self, request_id: &str, result: &str) -> (r: String)
        ensures
            r@ == "AUDIT: Executed "@ + request_id@ + " -> "@ + result@,
    {
        let mut r = String::new();
        r.append("AUDIT: Executed ");
        r.append(request_id);
        r.append(" -> ");
        r.append(result);
        r
    }
}

/// The label of a verdict.
pub open spec fn spec_decision_name(d: Decision) -> Seq<char> {
    match d {
        Decision::Approve => "approve"@,
        Decision::Deny => "deny"@,
        Decision::ConfirmRequired => "confirm_required"@,
    }
}

/// The label of a verdict.
pub fn decision_name(d: Decision) -> (r: &'static str)
    ensures
        r@ == spec_decision_name(d),
{
    match d {
        Decision::Approve => "approve",
        Decision::Deny => "deny",
        Decision::ConfirmRequired => "confirm_required",
    }
}

// ============================================================================
// Risk scoring
// ============================================================================

/// The base risk by effect kind: a staged write is mild, a direct write
/// or a shell command severe.
pub open spec fn spec_base_risk(effect: EffectPayload) -> int {
    match effect {
        EffectPayload::FilesystemWrite { mode, .. } => match mode {
            WriteMode::Shadow => 30,
            WriteMode::Patch => 50,
            WriteMode::Direct => 70,
        },
        EffectPayload::ShellWrite { .. } => 80,
        EffectPayload::NetworkOutbound { .. } => 40,
        EffectPayload::ScreenCapture { .. } => 30,
    }
}

/// The additive modifier by source.
pub open spec fn spec_source_modifier(source: EffectSource) -> int {
    match source {
        EffectSource::Agent => 0,
        EffectSource::Toolpack => 10,
        EffectSource::ClaudeSkill => 5,
    }
}

/// The risk score of a request: the base by kind, the source modifier,
/// and half the risk the agent itself declared, clamped to the scale.
pub open spec fn spec_gate_risk(request: EffectRequest) -> u8 {
    let declared = match request.risk_score {
        Some(s) => s as int,
        None => 0,
    };
    let total = spec_base_risk(request.effect) + spec_source_modifier(request.source) + declared
        / 2;
    if total > 100 {
        100
    } else {
        total as u8
    }
}

/// The effect type of a tagged payload.
pub open spec fn spec_effect_type_of(effect: EffectPayload) -> EffectType {
    match effect {
        EffectPayload::FilesystemWrite { .. } => EffectType::FilesystemWrite,
        EffectPayload::ShellWrite { .. } => EffectType::ShellWrite,
        EffectPayload::NetworkOutbound { .. } => EffectType::NetworkOutbound,
        EffectPayload::ScreenCapture { .. } => EffectType::ScreenCapture,
    }
}

// ============================================================================
// The engine
// ============================================================================

/// The engine: registered sessions, standing rules, and remembered
/// per-session approvals.
pub struct PolicyEngine {
    pub active_sessions: Vec<(String, AgentIdentity)>,
    pub user_policies: UserPolicies,
    pub session_approvals: Vec<(String, Vec<ApprovalPattern>)>,
    pub audit_writer: AuditWriter,
}

/// Whether an association list keyed by strings holds the key.
pub open spec fn gate_has_key<T>(v: Seq<(String, T)>, id: Seq<char>) -> bool {
    exists|k: int| 0 <= k < v.len() && (#[trigger] v[k]).0@ == id
}

/// The remembered patterns of a session, empty when none are held; used
/// only under `gate_has_key` with unique keys.
pub open spec fn gate_patterns_of(
    v: Seq<(String, Vec<ApprovalPattern>)>,
    id: Seq<char>,
) -> Seq<ApprovalPattern> {
    if gate_has_key(v, id) {
        let k = choose|k: int| 0 <= k < v.len() && (#[trigger] v[k]).0@ == id;
        v[k].1@
    } else {
        Seq::empty()
    }
}

/// With unique keys, the entry found under an id sits at the found index.
proof fn gate_unique_at(v: Seq<(String, Vec<ApprovalPattern>)>, id: Seq<char>, k: int)
    requires
        gate_keys_unique(v),
        0 <= k < v.len(),
        v[k].0@ == id,
    ensures
        gate_has_key(v, id),
        gate_patterns_of(v, id) == v[k].1@,
{
    let c = choose|c: int| 0 <= c < v.len() && (#[trigger] v[c]).0@ == id;
    if c != k {
        assert(v[if c < k { c } else { k }].0@ != v[if c < k { k } else { c }].0@);
    }
}

/// A request matches a remembered pattern: a filesystem write whose
/// target is a Rust source file.
pub open spec fn spec_matches_pattern(request: EffectRequest) -> bool {
    match request.effect {
        EffectPayload::FilesystemWrite { target_path, .. } => spec_ends_with(
            target_path@,
            ".rs"@,
        ),
        _ => false,
    }
}

/// The session has a live remembered approval that matches the request.
pub open spec fn spec_auto_approved(
    approvals: Seq<(String, Vec<ApprovalPattern>)>,
    request: EffectRequest,
    now: u64,
) -> bool {
    exists|k: int, m: int|
        0 <= k < approvals.len() && (#[trigger] approvals[k]).0@ == request.session_id@
            && 0 <= m < approvals[k].1@.len() && (#[trigger] approvals[k].1@[m]).expires_at > now
            && spec_matches_pattern(request)
}

impl PolicyEngine {
    /// A gate over the default rules, with no session registered.
    pub fn new(audit_writer: AuditWriter) -> (r: Self)
        ensures
            r.active_sessions@ == Seq::<(String, AgentIdentity)>::empty(),
            r.session_approvals@ == Seq::<(String, Vec<ApprovalPattern>)>::empty(),
            r.audit_writer == audit_writer,
    {
        PolicyEngine {
            active_sessions: Vec::new(),
            user_policies: UserPolicies::default(),
            session_approvals: Vec::new(),
            audit_writer,
        }
    }

    /// Register an agent session, replacing any earlier identity for the
    /// same session id.
    #[verifier::loop_isolation(false)]
    pub fn register_session(&mut self, identity: AgentIdentity)
        requires
            gate_keys_unique(old(self).active_sessions@),
        ensures
            gate_keys_unique(final(self).active_sessions@),
            gate_has_key(final(self).active_sessions@, identity.session_id@),
            forall|k: int|
                0 <= k < final(self).active_sessions@.len()
                    && (#[trigger] final(self).active_sessions@[k]).0@ == identity.session_id@
                    ==> final(self).active_sessions@[k].1 == identity,
            final(self).user_policies == old(self).user_policies,
            final(self).session_approvals == old(self).session_approvals,
    {
        let ghost sid = identity.session_id;
        let key = identity.session_id.clone();
        let ghost oldv = self.active_sessions@;
        let mut found: Option<usize> = None;
        let mut i: usize = 0;
        while i < self.active_sessions.len()
            invariant
                oldv == self.active_sessions@,
                0 <= i <= oldv.len(),
                found is None,
                forall|q: int| 0 <= q < i ==> (#[trigger] oldv[q]).0@ != sid@,
            decreases oldv.len() - i,
        {
            if str_eq(self.active_sessions[i].0.as_str(), key.as_str()) {
                found = Some(i);
                break ;
            }
            i = i + 1;
        }
        let mut at: usize = 0;
        match found {
            Some(k) => {
                self.active_sessions.set(k, (key, identity));
                at = k;
            }
            None => {
                self.active_sessions.push((key, identity));
                at = self.active_sessions.len() - 1;
            }
        }
        proof {
            let newv = self.active_sessions@;
            assert(newv[at as int].0@ == sid@);
            assert(newv[at as int].1 == identity);
            assert forall|p: int, q: int|
                0 <= p < q < newv.len()
                    implies (#[trigger] newv[p]).0@ != (#[trigger] newv[q]).0@ by {
                if p != at as int && q != at as int {
                    assert(newv[p] == oldv[p] && newv[q] == oldv[q]);
                } else if p == at as int {
                    assert(newv[q] == oldv[q]);
                    if (at as int) < oldv.len() {
                        assert(oldv[at as int].0@ == sid@);
                        assert(oldv[at as int].0@ != oldv[q].0@);
                    }
                } else {
                    assert(newv[p] == oldv[p]);
                    if (at as int) < oldv.len() {
                        assert(oldv[at as int].0@ == sid@);
                        assert(oldv[p].0@ != oldv[at as int].0@);
                    } else {
                        assert(!gate_has_key(oldv, sid@));
                    }
                }
            }
            assert forall|k: int|
                0 <= k < newv.len() && (#[trigger] newv[k]).0@ == sid@
                    implies newv[k].1 == identity by {
                if k != at as int {
                    assert(newv[if k < at as int {
                        k
                    } else {
                        at as int
                    }].0@ != newv[if k < at as int {
                        at as int
                    } else {
                        k
                    }].0@);
                }
            }
        }
    }

    /// A denial with the given reason.
    fn deny(&self, request_id: String, reason: &str) -> (r: PolicyDecision)
        ensures
            r.request_id == request_id,
            r.decision == Decision::Deny,
            r.reason matches Some(m) && m@ == reason@,
            r.scope_restrictions is None,
            r.auto_approve_similar == false,
    {
        PolicyDecision {
            request_id,
            decision: Decision::Deny,
            reason: Some(reason.to_owned()),
            scope_restrictions: None,
            auto_approve_similar: false,
        }
    }

    /// The effect type of a payload.
    pub fn get_effect_type(&self, effect: &EffectPayload) -> (r: EffectType)
        ensures
            r == spec_effect_type_of(*effect),
    {
        match effect {
            EffectPayload::FilesystemWrite { .. } => EffectType::FilesystemWrite,
            EffectPayload::ShellWrite { .. } => EffectType::ShellWrite,
            EffectPayload::NetworkOutbound { .. } => EffectType::NetworkOutbound,
            EffectPayload::ScreenCapture { .. } => EffectType::ScreenCapture,
        }
    }

    /// Whether a request matches a remembered pattern shape.
    pub fn matches_pattern(&self, request: &EffectRequest, _pattern: &ApprovalPattern) -> (r:
        bool)
        ensures
            r == spec_matches_pattern(*request),
    {
        match &request.effect {
            EffectPayload::FilesystemWrite { target_path, .. } => str_ends_with(
                target_path.as_str(),
                ".rs",
            ),
            _ => false,
        }
    }

    /// Whether a live remembered approval covers the request at `now`.
    #[verifier::loop_isolation(false)]
    pub fn check_auto_approval(&self, request: &EffectRequest, now: u64) -> (r: bool)
        ensures
            r == spec_auto_approved(self.session_approvals@, *request, now),
    {
        let mut k: usize = 0;
        while k < self.session_approvals.len()
            invariant
                0 <= k <= self.session_approvals@.len(),
                forall|p: int, m: int|
                    0 <= p < k && (#[trigger] self.session_approvals@[p]).0@
                        == request.session_id@ && 0 <= m < self.session_approvals@[p].1@.len()
                        ==> !((#[trigger] self.session_approvals@[p].1@[m]).expires_at > now
                        && spec_matches_pattern(*request)),
            decreases self.session_approvals@.len() - k,
        {
            if str_eq(self.session_approvals[k].0.as_str(), request.session_id.as_str()) {
                let patterns = &self.session_approvals[k].1;
                let mut m: usize = 0;
                while m < patterns.len()
                    invariant
                        0 <= m <= patterns@.len(),
                        patterns@ == self.session_approvals@[k as int].1@,
                        forall|q: int|
                            0 <= q < m ==> !((#[trigger] patterns@[q]).expires_at > now
                                && spec_matches_pattern(*request)),
                    decreases patterns@.len() - m,
                {
                    if patterns[m].expires_at > now && self.matches_pattern(
                        request,
                        &patterns[m],
                    ) {
                        return true;
                    }
                    m = m + 1;
                }
            }
            k = k + 1;
        }
        false
    }

    /// Remember a session approval, when the user asked to: writes to
    /// Rust source files auto-approve for one hour from `now`. Exactly one
    /// pattern is appended to the session's list; everything else stays.
    #[verifier::loop_isolation(false)]
    pub fn approve_with_memory(
        &mut self,
        request_id: String,
        session_id: String,
        remember: bool,
        now: u64,
    ) -> (r: Result<(), String>)
        requires
            gate_keys_unique(old(self).session_approvals@),
        ensures
            r is Ok,
            gate_keys_unique(final(self).session_approvals@),
            final(self).active_sessions == old(self).active_sessions,
            final(self).user_policies == old(self).user_policies,
            !remember ==> *final(self) == *old(self),
            remember ==> {
                &&& gate_has_key(final(self).session_approvals@, session_id@)
                &&& forall|k: int|
                    0 <= k < final(self).session_approvals@.len()
                        && (#[trigger] final(self).session_approvals@[k]).0@ == session_id@
                        ==> {
                        let pats = final(self).session_approvals@[k].1@;
                        let before = gate_patterns_of(old(self).session_approvals@, session_id@);
                        &&& pats.len() == before.len() + 1
                        &&& pats.subrange(0, pats.len() - 1) == before
                        &&& pats.last().effect_type == EffectType::FilesystemWrite
                        &&& pats.last().pattern@ == "**/*.rs"@
                        &&& pats.last().expires_at == (if now < 0xffff_ffff_ffff_f000u64 {
                            (now + 3600) as u64
                        } else {
                            now
                        })
                    }
                &&& forall|j: int|
                    0 <= j < old(self).session_approvals@.len()
                        && (#[trigger] old(self).session_approvals@[j]).0@ != session_id@
                        ==> exists|m: int|
                        0 <= m < final(self).session_approvals@.len()
                            && #[trigger] final(self).session_approvals@[m]
                            == old(self).session_approvals@[j]
            },
    {
        if remember {
            let expires_at: u64 = if now < 0xffff_ffff_ffff_f000u64 {
                now + 3600
            } else {
                now
            };
            let pattern = ApprovalPattern {
                effect_type: EffectType::FilesystemWrite,
                pattern: "**/*.rs".to_owned(),
                expires_at,
            };
            let ghost gpat = pattern;
            let ghost oldv = self.session_approvals@;
            let mut found: Option<usize> = None;
            let mut k: usize = 0;
            while k < self.session_approvals.len()
                invariant
                    oldv == self.session_approvals@,
                    0 <= k <= oldv.len(),
                    found is None,
                    forall|q: int| 0 <= q < k ==> (#[trigger] oldv[q]).0@ != session_id@,
                decreases oldv.len() - k,
            {
                if str_eq(self.session_approvals[k].0.as_str(), session_id.as_str()) {
                    found = Some(k);
                    break ;
                }
                k = k + 1;
            }
            match found {
                Some(k) => {
                    proof {
                        gate_unique_at(oldv, session_id@, k as int);
                    }
                    let (key, mut patterns) = self.session_approvals.remove(k);
                    let ghost removed = self.session_approvals@;
                    patterns.push(pattern);
                    self.session_approvals.push((key, patterns));
                    proof {
                        let v = self.session_approvals@;
                        assert(v[v.len() - 1].0@ == session_id@);
                        assert(v[v.len() - 1].1@ =~= oldv[k as int].1@.push(gpat));
                        assert(v[v.len() - 1].1@.subrange(0, v[v.len() - 1].1@.len() - 1)
                            =~= oldv[k as int].1@);
                        assert(gate_patterns_of(oldv, session_id@) == oldv[k as int].1@);
                        assert forall|m: int|
                            0 <= m < removed.len()
                                implies (#[trigger] removed[m]).0@ != session_id@ by {
                            let m0 = if m < k as int {
                                m
                            } else {
                                m + 1
                            };
                            assert(removed[m] == oldv[m0]);
                            if m0 != k as int {
                                assert(oldv[if m0 < k as int {
                                    m0
                                } else {
                                    k as int
                                }].0@ != oldv[if m0 < k as int {
                                    k as int
                                } else {
                                    m0
                                }].0@);
                            }
                        }
                        assert forall|p: int, q: int|
                            0 <= p < q < v.len()
                                implies (#[trigger] v[p]).0@ != (#[trigger] v[q]).0@ by {
                            if q < v.len() - 1 {
                                let p0 = if p < k as int {
                                    p
                                } else {
                                    p + 1
                                };
                                let q0 = if q < k as int {
                                    q
                                } else {
                                    q + 1
                                };
                                assert(v[p] == oldv[p0]);
                                assert(v[q] == oldv[q0]);
                            } else {
                                assert(v[p] == removed[p]);
                            }
                        }
                        assert forall|m: int|
                            0 <= m < v.len() && (#[trigger] v[m]).0@ == session_id@
                                implies m == v.len() - 1 by {
                            if m < v.len() - 1 {
                                assert(v[m] == removed[m]);
                            }
                        }
                        assert forall|j: int|
                            0 <= j < oldv.len() && (#[trigger] oldv[j]).0@ != session_id@
                                implies exists|m: int|
                                0 <= m < v.len() && #[trigger] v[m] == oldv[j] by {
                            let m0 = if j < k as int {
                                j
                            } else {
                                j - 1
                            };
                            assert(v[m0] == oldv[j]);
                        }
                    }
                }
                None => {
                    let mut fresh: Vec<ApprovalPattern> = Vec::new();
                    fresh.push(pattern);
                    self.session_approvals.push((session_id, fresh));
                    proof {
                        let v = self.session_approvals@;
                        assert(v[v.len() - 1].0@ == session_id@);
                        assert(!gate_has_key(oldv, v[v.len() - 1].0@));
                        assert(v[v.len() - 1].1@ =~= Seq::<ApprovalPattern>::empty().push(gpat));
                        assert(v[v.len() - 1].1@.subrange(0, v[v.len() - 1].1@.len() - 1)
                            =~= Seq::<ApprovalPattern>::empty());
                        assert forall|p: int, q: int|
                            0 <= p < q < v.len()
                                implies (#[trigger] v[p]).0@ != (#[trigger] v[q]).0@ by {
                            if q < oldv.len() {
                                assert(v[p] == oldv[p] && v[q] == oldv[q]);
                            } else {
                                assert(v[p] == oldv[p]);
                            }
                        }
                        assert forall|m: int|
                            0 <= m < v.len() && (#[trigger] v[m]).0@ == session_id@
                                implies m == v.len() - 1 by {
                            if m < v.len() - 1 {
                                assert(v[m] == oldv[m]);
                            }
                        }
                        assert forall|j: int|
                            0 <= j < oldv.len() && (#[trigger] oldv[j]).0@ != session_id@
                                implies exists|m: int|
                                0 <= m < v.len() && #[trigger] v[m] == oldv[j] by {
                            assert(v[j] == oldv[j]);
                        }
                    }
                }
            }
        }
        let _unused = request_id;
        Ok(())
    }

    /// The risk score of a request.
    pub fn calculate_risk(&self, request: &EffectRequest) -> (r: u8)
        ensures
            r == spec_gate_risk(*request),
    {
        let base: u16 = match &request.effect {
            EffectPayload::FilesystemWrite { mode, .. } => match mode {
                WriteMode::Shadow => 30,
                WriteMode::Patch => 50,
                WriteMode::Direct => 70,
            },
            EffectPayload::ShellWrite { .. } => 80,
            EffectPayload::NetworkOutbound { .. } => 40,
            EffectPayload::ScreenCapture { .. } => 30,
        };
        let modifier: u16 = match request.source {
            EffectSource::Agent => 0,
            EffectSource::Toolpack => 10,
            EffectSource::ClaudeSkill => 5,
        };
        let declared: u16 = match request.risk_score {
            Some(s) => s as u16,
            None => 0,
        };
        let total = base + modifier + declared / 2;
        if total > 100 {
            100
        } else {
            total as u8
        }
    }

    /// The first standing rule the request breaks, as a message: a denied
    /// command fragment, a command whose leading word no allowlist entry
    /// prefixes, a write outside every allowed workspace, or a host that
    /// no allowed domain suffixes.
    #[verifier::loop_isolation(false)]
    pub fn check_static_rules(&self, request: &EffectRequest) -> (r: Option<String>)
        ensures
            r.deep_view() == spec_static_violation(self.user_policies, request.effect),
    {
        match &request.effect {
            EffectPayload::ShellWrite { command, .. } => {
                let denylist = lookup_denylist(&self.user_policies.global_denylist,
                    EffectType::ShellWrite);
                if let Some(dl) = denylist {
                    let mut i: usize = 0;
                    while i < dl.len()
                        invariant
                            spec_denylist_for(self.user_policies.global_denylist@,
                                EffectType::ShellWrite) matches Some(d) && d@ == dl@,
                            0 <= i <= dl@.len(),
                            forall|q: int|
                                0 <= q < i ==> !spec_contains(
                                    request.effect->ShellWrite_command@,
                                    (#[trigger] dl@[q])@),
                        decreases dl@.len() - i,
                    {
                        if str_contains(command.as_str(), dl[i].as_str()) {
                            let mut msg = String::new();
                            msg.append("Blocked command pattern: ");
                            msg.append(dl[i].as_str());
                            proof {
                                first_denied_at(dl@, request.effect->ShellWrite_command@,
                                    i as int);
                            }
                            return Some(msg);
                        }
                        i = i + 1;
                    }
                    proof {
                        no_denied_hit(dl@, request.effect->ShellWrite_command@);
                    }
                }
                let token = first_token(command.as_str());
                if token.as_str().is_empty() {
                    return None;
                }
                let mut i: usize = 0;
                while i < self.user_policies.command_allowlist.len()
                    invariant
                        token@ == spec_first_token(request.effect->ShellWrite_command@),
                        0 <= i <= self.user_policies.command_allowlist@.len(),
                        forall|q: int|
                            0 <= q < i ==> !spec_starts_with(
                                token@,
                                (#[trigger] self.user_policies.command_allowlist@[q])@),
                    decreases self.user_policies.command_allowlist@.len() - i,
                {
                    if str_starts_with(token.as_str(),
                        self.user_policies.command_allowlist[i].as_str()) {
                        return None;
                    }
                    i = i + 1;
                }
                let mut msg = String::new();
                msg.append("Command not in allowlist: ");
                msg.append(token.as_str());
                Some(msg)
            }
            EffectPayload::FilesystemWrite { target_path, .. } => {
                if self.user_policies.workspace_allowlist.len() == 0 {
                    return None;
                }
                let mut i: usize = 0;
                while i < self.user_policies.workspace_allowlist.len()
                    invariant
                        0 <= i <= self.user_policies.workspace_allowlist@.len(),
                        forall|q: int|
                            0 <= q < i ==> !spec_starts_with(
                                request.effect->FilesystemWrite_target_path@,
                                (#[trigger] self.user_policies.workspace_allowlist@[q])@),
                    decreases self.user_policies.workspace_allowlist@.len() - i,
                {
                    if str_starts_with(target_path.as_str(),
                        self.user_policies.workspace_allowlist[i].as_str()) {
                        return None;
                    }
                    i = i + 1;
                }
                Some("Path outside workspace".to_owned())
            }
            EffectPayload::NetworkOutbound { url, .. } => {
                let host = url_host(url.as_str());
                match host {
                    None => None,
                    Some(h) => {
                        let mut i: usize = 0;
                        while i < self.user_policies.domain_allowlist.len()
                            invariant
                                host_of(request.effect->NetworkOutbound_url@)
                                    matches Some(hh) && hh == h@,
                                0 <= i <= self.user_policies.domain_allowlist@.len(),
                                forall|q: int|
                                    0 <= q < i ==> !spec_ends_with(
                                        h@,
                                        (#[trigger] self.user_policies.domain_allowlist@[q])@),
                            decreases self.user_policies.domain_allowlist@.len() - i,
                        {
                            if str_ends_with(h.as_str(),
                                self.user_policies.domain_allowlist[i].as_str()) {
                                return None;
                            }
                            i = i + 1;
                        }
                        let mut msg = String::new();
                        msg.append("Domain not in allowlist: ");
                        msg.append(h.as_str());
                        Some(msg)
                    }
                }
            }
            EffectPayload::ScreenCapture { .. } => None,
        }
    }

    /// What narrows an approved shell command: it gets the
    /// allowlist, the denied fragments, and secret-redaction patterns.
    pub fn build_restrictions(&self, request: &EffectRequest) -> (r: Option<ScopeRestrictions>)
        ensures
            match request.effect {
                EffectPayload::ShellWrite { .. } => r matches Some(s) && {
                    &&& (s.allowlist matches Some(a) && a.deep_view()
                        == self.user_policies.command_allowlist.deep_view())
                    &&& s.denylist.deep_view() == (match spec_denylist_for(
                        self.user_policies.global_denylist@, EffectType::ShellWrite) {
                        Some(d) => Some(d.deep_view()),
                        None => None,
                    })
                    &&& (s.redact_patterns matches Some(p) && p@.len() == 2)
                },
                _ => r is None,
            },
    {
        match &request.effect {
            EffectPayload::ShellWrite { .. } => {
                let denylist = lookup_denylist(&self.user_policies.global_denylist,
                    EffectType::ShellWrite);
                let mut redact: Vec<String> = Vec::new();
                redact.push("password=\\S+".to_owned());
                redact.push("token=\\S+".to_owned());
                Some(ScopeRestrictions {
                    allowlist: Some(clone_string_vec(&self.user_policies.command_allowlist)),
                    denylist,
                    redact_patterns: Some(redact),
                })
            }
            _ => None,
        }
    }

    /// Decide on a gate request: unknown sessions and missing
    /// capabilities are denied; a live remembered approval approves; a
    /// broken standing rule denies; otherwise the risk score decides,
    /// high risk denying, medium risk or a sensitive effect type asking
    /// the user, and anything else passing.
    pub fn evaluate(&self, request: &EffectRequest) -> (r: PolicyDecision)
        requires
            gate_keys_unique(self.active_sessions@),
        ensures
            r.request_id@ == request.request_id@,
            !gate_has_key(self.active_sessions@, request.session_id@) ==> (r.decision
                == Decision::Deny && (r.reason matches Some(m) && m@ == "Unknown session"@)),
            gate_has_key(self.active_sessions@, request.session_id@) && !spec_session_capable(
                self.active_sessions@, request.session_id@, spec_effect_type_of(request.effect))
                ==> (r.decision == Decision::Deny && (r.reason matches Some(m) && m@
                == "Session lacks capability"@)),
            gate_has_key(self.active_sessions@, request.session_id@) && spec_session_capable(
                self.active_sessions@, request.session_id@, spec_effect_type_of(request.effect))
                ==> ((r.decision == Decision::Approve && (r.reason matches Some(m) && m@
                == "Auto-approved (session pattern)"@)) || spec_rule_outcome(
                self.user_policies, *request, r)),
            gate_has_key(self.active_sessions@, request.session_id@) && spec_session_capable(
                self.active_sessions@, request.session_id@, spec_effect_type_of(request.effect))
                && !spec_matches_pattern(*request) ==> spec_rule_outcome(
                self.user_policies, *request, r),
    {
        let found = find_session(&self.active_sessions, request.session_id.as_str());
        let session_at = match found {
            None => {
                return PolicyDecision {
                    request_id: request.request_id.clone(),
                    decision: Decision::Deny,
                    reason: Some("Unknown session".to_owned()),
                    scope_restrictions: None,
                    auto_approve_similar: false,
                };
            }
            Some(k) => k,
        };

        let effect_type = self.get_effect_type(&request.effect);
        let mut capable = false;
        let caps = &self.active_sessions[session_at].1.capabilities;
        let mut i: usize = 0;
        while i < caps.len()
            invariant
                caps@ == self.active_sessions@[session_at as int].1.capabilities@,
                0 <= i <= caps@.len(),
                capable == (exists|q: int| 0 <= q < i && (#[trigger] caps@[q]) == effect_type),
            decreases caps@.len() - i,
        {
            if caps[i] == effect_type {
                capable = true;
            }
            i = i + 1;
        }
        proof {
            gate_session_at(self.active_sessions@, request.session_id@, session_at as int);
        }
        if !capable {
            return self.deny(request.request_id.clone(), "Session lacks capability");
        }

        let now = now_unix_secs();
        if self.check_auto_approval(request, now) {
            return PolicyDecision {
                request_id: request.request_id.clone(),
                decision: Decision::Approve,
                reason: Some("Auto-approved (session pattern)".to_owned()),
                scope_restrictions: None,
                auto_approve_similar: false,
            };
        }

        if let Some(violation) = self.check_static_rules(request) {
            return PolicyDecision {
                request_id: request.request_id.clone(),
                decision: Decision::Deny,
                reason: Some(violation),
                scope_restrictions: None,
                auto_approve_similar: false,
            };
        }

        let risk_score = self.calculate_risk(request);
        let mut asks = false;
        let reqs = &self.user_policies.requires_confirmation;
        let mut j: usize = 0;
        while j < reqs.len()
            invariant
                reqs@ == self.user_policies.requires_confirmation@,
                0 <= j <= reqs@.len(),
                asks == (exists|q: int| 0 <= q < j && (#[trigger] reqs@[q]) == effect_type),
            decreases reqs@.len() - j,
        {
            if reqs[j] == effect_type {
                asks = true;
            }
            j = j + 1;
        }
        let decision = if risk_score >= 80 {
            Decision::Deny
        } else if risk_score >= 40 || asks {
            Decision::ConfirmRequired
        } else {
            Decision::Approve
        };
        let mut reason = String::new();
        reason.append("Risk score: ");
        let t = usize_to_string(risk_score as usize);
        reason.append(t.as_str());
        PolicyDecision {
            request_id: request.request_id.clone(),
            decision,
            reason: Some(reason),
            scope_restrictions: self.build_restrictions(request),
            auto_approve_similar: false,
        }
    }
}

/// The keys of an association list are pairwise distinct.
pub open spec fn gate_keys_unique<T>(v: Seq<(String, T)>) -> bool {
    forall|p: int, q: int|
        0 <= p < q < v.len() ==> (#[trigger] v[p]).0@ != (#[trigger] v[q]).0@
}

/// The registered session owns the capability.
pub open spec fn spec_session_capable(
    v: Seq<(String, AgentIdentity)>,
    session_id: Seq<char>,
    t: EffectType,
) -> bool {
    let k = choose|k: int| 0 <= k < v.len() && (#[trigger] v[k]).0@ == session_id;
    v[k].1.capabilities@.contains(t)
}

/// The outcome the standing rules and the risk score dictate, when no
/// remembered approval short-circuits: a broken rule denies with its
/// message, high risk denies, medium risk or a sensitive effect type
/// asks, and the rest passes, always naming the risk score.
pub open spec fn spec_rule_outcome(
    policies: UserPolicies,
    request: EffectRequest,
    r: PolicyDecision,
) -> bool {
    match spec_static_violation(policies, request.effect) {
        Some(msg) => r.decision == Decision::Deny && (r.reason matches Some(m) && m@ == msg),
        None => {
            let risk = spec_gate_risk(request);
            &&& r.decision == (if risk >= 80 {
                Decision::Deny
            } else if risk >= 40 || policies.requires_confirmation@.contains(
                spec_effect_type_of(request.effect),
            ) {
                Decision::ConfirmRequired
            } else {
                Decision::Approve
            })
            &&& (r.reason matches Some(m) && m@ == "Risk score: "@ + dec_str(risk as int))
        }
    }
}

/// The denied fragments for an effect type, by first match.
pub open spec fn spec_denylist_for(
    v: Seq<(EffectType, Vec<String>)>,
    t: EffectType,
) -> Option<Vec<String>>
    decreases v.len(),
{
    if v.len() == 0 {
        None
    } else if v[0].0 == t {
        Some(v[0].1)
    } else {
        spec_denylist_for(v.skip(1), t)
    }
}

/// The first denied fragment the command contains, by list order.
pub open spec fn spec_first_denied(list: Seq<String>, command: Seq<char>) -> Option<int>
    decreases list.len(),
{
    if list.len() == 0 {
        None
    } else if spec_contains(command, list[0]@) {
        Some(0)
    } else {
        match spec_first_denied(list.skip(1), command) {
            Some(k) => Some(k + 1),
            None => None,
        }
    }
}

/// A blank that separates command words.
pub open spec fn is_blank(c: char) -> bool {
    c == ' ' || c == '\t' || c == '\n' || c == '\r'
}

/// The leading blanks of a text.
pub open spec fn spec_leading_blanks(s: Seq<char>) -> int
    decreases s.len(),
{
    if s.len() == 0 {
        0
    } else if is_blank(s[0]) {
        1 + spec_leading_blanks(s.skip(1))
    } else {
        0
    }
}

/// The length of the first word of a blank-free prefix.
pub open spec fn spec_word_len(s: Seq<char>) -> int
    decreases s.len(),
{
    if s.len() == 0 {
        0
    } else if is_blank(s[0]) {
        0
    } else {
        1 + spec_word_len(s.skip(1))
    }
}

/// The first blank-separated word of a command, empty when there is none.
pub open spec fn spec_first_token(s: Seq<char>) -> Seq<char> {
    let a = spec_leading_blanks(s);
    s.subrange(a, a + spec_word_len(s.skip(a)))
}

/// The message of the first standing rule the payload breaks, if any.
pub open spec fn spec_static_violation(policies: UserPolicies, effect: EffectPayload) -> Option<
    Seq<char>,
> {
    match effect {
        EffectPayload::ShellWrite { command, .. } => {
            let dl = spec_denylist_for(policies.global_denylist@, EffectType::ShellWrite);
            let hit = match dl {
                Some(d) => spec_first_denied(d@, command@),
                None => None,
            };
            match hit {
                Some(i) => Some("Blocked command pattern: "@ + dl->Some_0@[i]@),
                None => {
                    let token = spec_first_token(command@);
                    if token.len() == 0 {
                        None
                    } else if exists|q: int|
                        0 <= q < policies.command_allowlist@.len() && spec_starts_with(
                            token,
                            (#[trigger] policies.command_allowlist@[q])@,
                        ) {
                        None
                    } else {
                        Some("Command not in allowlist: "@ + token)
                    }
                }
            }
        }
        EffectPayload::FilesystemWrite { target_path, .. } => {
            if policies.workspace_allowlist@.len() == 0 {
                None
            } else if exists|q: int|
                0 <= q < policies.workspace_allowlist@.len() && spec_starts_with(
                    target_path@,
                    (#[trigger] policies.workspace_allowlist@[q])@,
                ) {
                None
            } else {
                Some("Path outside workspace"@)
            }
        }
        EffectPayload::NetworkOutbound { url, .. } => {
            match host_of(url@) {
                None => None,
                Some(h) => {
                    if exists|q: int|
                        0 <= q < policies.domain_allowlist@.len() && spec_ends_with(
                            h,
                            (#[trigger] policies.domain_allowlist@[q])@,
                        ) {
                        None
                    } else {
                        Some("Domain not in allowlist: "@ + h)
                    }
                }
            }
        }
        EffectPayload::ScreenCapture { .. } => None,
    }
}

/// The host of a URL, if the URL parses and has one; a function of the
/// URL string alone.
pub uninterp spec fn host_of(url: Seq<char>) -> Option<Seq<char>>;

/// Relies on url::Url::parse and Url::host_str: both are functions of the
/// URL string alone.
#[verifier::external_body]
fn url_host(url: &str) -> (r: Option<String>)
    ensures
        r.deep_view() == host_of(url@),
{
    match url::Url::parse(url) {
        Ok(parsed) => parsed.host_str().map(|h| h.to_owned()),
        Err(_) => None,
    }
}

/// The denied fragments for an effect type, cloned out of the rules.
#[verifier::loop_isolation(false)]
fn lookup_denylist(v: &Vec<(EffectType, Vec<String>)>, t: EffectType) -> (r: Option<Vec<String>>)
    ensures
        match spec_denylist_for(v@, t) {
            Some(d) => r matches Some(rd) && rd@ == d@,
            None => r is None,
        },
{
    let ghost vv = v@;
    proof {
        assert(vv.skip(0) =~= vv);
    }
    let mut i: usize = 0;
    while i < v.len()
        invariant
            vv == v@,
            0 <= i <= vv.len(),
            spec_denylist_for(vv.skip(i as int), t) == spec_denylist_for(vv, t),
        decreases vv.len() - i,
    {
        proof {
            assert(vv.skip(i as int)[0] == vv[i as int]);
            assert(vv.skip(i as int).skip(1) =~= vv.skip(i as int + 1));
        }
        if v[i].0 == t {
            return Some(clone_string_vec(&v[i].1));
        }
        i = i + 1;
    }
    proof {
        assert(vv.skip(vv.len() as int) =~= Seq::<(EffectType, Vec<String>)>::empty());
    }
    None
}

/// No fragment hits: there is no first denied fragment.
proof fn no_denied_hit(list: Seq<String>, command: Seq<char>)
    requires
        forall|q: int| 0 <= q < list.len() ==> !spec_contains(command, (#[trigger] list[q])@),
    ensures
        spec_first_denied(list, command) is None,
    decreases list.len(),
{
    if list.len() != 0 {
        assert forall|q: int| 0 <= q < list.skip(1).len() implies !spec_contains(
            command, (#[trigger] list.skip(1)[q])@) by {
            assert(list.skip(1)[q] == list[q + 1]);
        }
        no_denied_hit(list.skip(1), command);
    }
}

/// A hit at index `i`, with no earlier hit, is the first denied fragment.
proof fn first_denied_at(list: Seq<String>, command: Seq<char>, i: int)
    requires
        0 <= i < list.len(),
        spec_contains(command, list[i]@),
        forall|q: int| 0 <= q < i ==> !spec_contains(command, (#[trigger] list[q])@),
    ensures
        spec_first_denied(list, command) == Some(i),
    decreases i,
{
    if i == 0 {
    } else {
        assert(!spec_contains(command, list[0]@));
        assert(list.skip(1)[i - 1] == list[i]);
        assert forall|q: int| 0 <= q < i - 1 implies !spec_contains(
            command, (#[trigger] list.skip(1)[q])@) by {
            assert(list.skip(1)[q] == list[q + 1]);
        }
        first_denied_at(list.skip(1), command, i - 1);
    }
}

/// The session found under an id sits at the index `find_session`
/// returns.
proof fn gate_session_at(v: Seq<(String, AgentIdentity)>, id: Seq<char>, k: int)
    requires
        gate_keys_unique(v),
        0 <= k < v.len(),
        v[k].0@ == id,
    ensures
        gate_has_key(v, id),
        forall|t: EffectType| spec_session_capable(v, id, t) == v[k].1.capabilities@.contains(t),
{
    assert forall|t: EffectType|
        spec_session_capable(v, id, t) == v[k].1.capabilities@.contains(t) by {
        let c = choose|c: int| 0 <= c < v.len() && (#[trigger] v[c]).0@ == id;
        if c != k {
            assert(v[if c < k { c } else { k }].0@ != v[if c < k { k } else { c }].0@);
        }
    }
}

/// The index of the session with the id, if any.
fn find_session(v: &Vec<(String, AgentIdentity)>, id: &str) -> (r: Option<usize>)
    ensures
        match r {
            Some(k) => 0 <= k < v@.len() && v@[k as int].0@ == id@,
            None => !gate_has_key(v@, id@),
        },
{
    let mut i: usize = 0;
    while i < v.len()
        invariant
            0 <= i <= v@.len(),
            forall|q: int| 0 <= q < i ==> (#[trigger] v@[q]).0@ != id@,
        decreases v@.len() - i,
    {
        if str_eq(v[i].0.as_str(), id) {
            return Some(i);
        }
        i = i + 1;
    }
    None
}

/// No blank stands before `a`, and `a` is the end or a non-blank: `a`
/// is the count of leading blanks.
proof fn lemma_leading_blanks_at(s: Seq<char>, a: int)
    requires
        0 <= a <= s.len(),
        forall|q: int| 0 <= q < a ==> is_blank(s[q]),
        a < s.len() ==> !is_blank(s[a]),
    ensures
        spec_leading_blanks(s) == a,
    decreases s.len(),
{
    if s.len() != 0 && is_blank(s[0]) {
        assert(a > 0);
        assert forall|q: int| 0 <= q < a - 1 implies is_blank(s.skip(1)[q]) by {
            assert(s.skip(1)[q] == s[q + 1]);
        }
        if a - 1 < s.skip(1).len() {
            assert(s.skip(1)[a - 1] == s[a]);
        }
        lemma_leading_blanks_at(s.skip(1), a - 1);
    }
}

/// No blank stands before `w`, and `w` is the end or a blank: `w` is the
/// length of the first word.
proof fn lemma_word_len_at(s: Seq<char>, w: int)
    requires
        0 <= w <= s.len(),
        forall|q: int| 0 <= q < w ==> !is_blank(s[q]),
        w < s.len() ==> is_blank(s[w]),
    ensures
        spec_word_len(s) == w,
    decreases s.len(),
{
    if s.len() != 0 && !is_blank(s[0]) {
        assert(w > 0);
        assert forall|q: int| 0 <= q < w - 1 implies !is_blank(s.skip(1)[q]) by {
            assert(s.skip(1)[q] == s[q + 1]);
        }
        if w - 1 < s.skip(1).len() {
            assert(s.skip(1)[w - 1] == s[w]);
        }
        lemma_word_len_at(s.skip(1), w - 1);
    }
}

/// The first blank-separated word of a command.
#[verifier::loop_isolation(false)]
fn first_token(s: &str) -> (r: String)
    ensures
        r@ == spec_first_token(s@),
{
    let n = s.unicode_len();
    let mut a: usize = 0;
    let mut scanning = true;
    while scanning && a < n
        invariant
            n == s@.len(),
            0 <= a <= n,
            forall|q: int| 0 <= q < a ==> is_blank(s@[q]),
            !scanning ==> (a < n && !is_blank(s@[a as int])),
        decreases n - a + (if scanning { 1int } else { 0int }),
    {
        let c = s.get_char(a);
        if c == ' ' || c == '\t' || c == '\n' || c == '\r' {
            a = a + 1;
        } else {
            scanning = false;
        }
    }
    proof {
        lemma_leading_blanks_at(s@, a as int);
    }
    let mut b: usize = a;
    let mut word = true;
    while word && b < n
        invariant
            n == s@.len(),
            0 <= a <= b <= n,
            forall|q: int| a <= q < b ==> !is_blank(s@[q]),
            !word ==> (b < n && is_blank(s@[b as int])),
        decreases n - b + (if word { 1int } else { 0int }),
    {
        let c = s.get_char(b);
        if c == ' ' || c == '\t' || c == '\n' || c == '\r' {
            word = false;
        } else {
            b = b + 1;
        }
    }
    proof {
        let tail = s@.skip(a as int);
        assert forall|q: int| 0 <= q < b - a implies !is_blank(tail[q]) by {
            assert(tail[q] == s@[a + q]);
        }
        if b < n {
            assert(tail[b - a] == s@[b as int]);
        }
        lemma_word_len_at(tail, b - a);
        assert(s@.subrange(a as int, b as int) =~= spec_first_token(s@));
    }
    s.substring_char(a, b).to_owned()
}

} // verus!
