use vstd::prelude::*;

use crate::strutil::{clone_opt_string, clone_opt_string_vec};

verus! {

/// The closed set of effects an agent can request.
#[derive(Debug, Clone, Copy, PartialEq, Eq, Structural, Hash)]
pub enum EffectType {
    FilesystemRead,
    FilesystemWrite,
    ShellRead,
    ShellWrite,
    NetworkOutbound,
    SecretsRead,
    ScreenCapture,
    UiControl,
}

/// The wire name of an effect type.
pub open spec fn spec_effect_type_name(t: EffectType) -> Seq<char> {
    match t {
        EffectType::FilesystemRead => "filesystem:read"@,
        EffectType::FilesystemWrite => "filesystem:write"@,
        EffectType::ShellRead => "shell:read"@,
        EffectType::ShellWrite => "shell:write"@,
        EffectType::NetworkOutbound => "network:outbound"@,
        EffectType::SecretsRead => "secrets:read"@,
        EffectType::ScreenCapture => "screen:capture"@,
        EffectType::UiControl => "ui:control"@,
    }
}

impl EffectType {
    /// The wire name of this effect type.
    pub fn as_str(&self) -> (r: &'static str)
        ensures
            r@ == spec_effect_type_name(*self),
    {
        match self {
            EffectType::FilesystemRead => "filesystem:read",
            EffectType::FilesystemWrite => "filesystem:write",
            EffectType::ShellRead => "shell:read",
            EffectType::ShellWrite => "shell:write",
            EffectType::NetworkOutbound => "network:outbound",
            EffectType::SecretsRead => "secrets:read",
            EffectType::ScreenCapture => "screen:capture",
            EffectType::UiControl => "ui:control",
        }
    }
}

/// Where a request came from.
#[derive(Debug, Clone, Copy, PartialEq, Eq, Structural)]
pub enum EffectSource {
    Agent,
    Toolpack,
    ClaudeSkill,
}

/// How an effect type is confirmed: `Never` auto-approves silently,
/// `Once` approves this request and asks again next time, `Session`
/// remembers until restart, `Permanent` remembers across restarts, and
/// `Always` always asks.
#[derive(Debug, Clone, Copy, PartialEq, Eq, Structural)]
pub enum ConfirmationPolicy {
    Always,
    Once,
    Session,
    Permanent,
    Never,
}

/// Allowlist and blocklist overrides a request is willing to accept.
#[derive(Debug, Clone)]
pub struct EffectScope {
    pub workspace_paths: Option<Vec<String>>,
    pub allowed_extensions: Option<Vec<String>>,
    pub excluded_paths: Option<Vec<String>>,
    pub command_allowlist: Option<Vec<String>>,
    pub command_blocklist: Option<Vec<String>>,
    pub domain_allowlist: Option<Vec<String>>,
    pub domain_blocklist: Option<Vec<String>>,
    pub max_file_size_bytes: Option<u64>,
    pub timeout_ms: Option<u64>,
}

impl Default for EffectScope {
    /// The empty scope: no list and no limit set.
    fn default() -> (r: Self)
        ensures
            r.workspace_paths is None,
            r.allowed_extensions is None,
            r.excluded_paths is None,
            r.command_allowlist is None,
            r.command_blocklist is None,
            r.domain_allowlist is None,
            r.domain_blocklist is None,
            r.max_file_size_bytes is None,
            r.timeout_ms is None,
    {
        EffectScope {
            workspace_paths: None,
            allowed_extensions: None,
            excluded_paths: None,
            command_allowlist: None,
            command_blocklist: None,
            domain_allowlist: None,
            domain_blocklist: None,
            max_file_size_bytes: None,
            timeout_ms: None,
        }
    }
}

/// Two scopes hold the same lists and limits.
pub open spec fn scope_eq(a: EffectScope, b: EffectScope) -> bool {
    &&& a.workspace_paths.deep_view() == b.workspace_paths.deep_view()
    &&& a.allowed_extensions.deep_view() == b.allowed_extensions.deep_view()
    &&& a.excluded_paths.deep_view() == b.excluded_paths.deep_view()
    &&& a.command_allowlist.deep_view() == b.command_allowlist.deep_view()
    &&& a.command_blocklist.deep_view() == b.command_blocklist.deep_view()
    &&& a.domain_allowlist.deep_view() == b.domain_allowlist.deep_view()
    &&& a.domain_blocklist.deep_view() == b.domain_blocklist.deep_view()
    &&& a.max_file_size_bytes == b.max_file_size_bytes
    &&& a.timeout_ms == b.timeout_ms
}

impl EffectScope {
    /// A copy of this scope with the same contents.
    pub fn duplicate(&self) -> (r: EffectScope)
        ensures
            scope_eq(*self, r),
    {
        EffectScope {
            workspace_paths: clone_opt_string_vec(&self.workspace_paths),
            allowed_extensions: clone_opt_string_vec(&self.allowed_extensions),
            excluded_paths: clone_opt_string_vec(&self.excluded_paths),
            command_allowlist: clone_opt_string_vec(&self.command_allowlist),
            command_blocklist: clone_opt_string_vec(&self.command_blocklist),
            domain_allowlist: clone_opt_string_vec(&self.domain_allowlist),
            domain_blocklist: clone_opt_string_vec(&self.domain_blocklist),
            max_file_size_bytes: self.max_file_size_bytes,
            timeout_ms: self.timeout_ms,
        }
    }
}

/// The payload of an effect request; only the fields relevant to the
/// effect type are populated.
#[derive(Debug, Clone)]
pub struct EffectPayload {
    pub path: Option<String>,
    pub content: Option<String>,
    pub operation: Option<String>,
    pub command: Option<String>,
    pub args: Option<Vec<String>>,
    pub cwd: Option<String>,
    pub url: Option<String>,
    pub method: Option<String>,
    pub headers: Option<Vec<(String, String)>>,
    pub description: Option<String>,
}

impl Default for EffectPayload {
    /// The empty payload.
    fn default() -> (r: Self)
        ensures
            r.path is None,
            r.content is None,
            r.operation is None,
            r.command is None,
            r.args is None,
            r.cwd is None,
            r.url is None,
            r.method is None,
            r.headers is None,
            r.description is None,
    {
        EffectPayload {
            path: None,
            content: None,
            operation: None,
            command: None,
            args: None,
            cwd: None,
            url: None,
            method: None,
            headers: None,
            description: None,
        }
    }
}

/// Two payloads hold the same fields.
pub open spec fn payload_eq(a: EffectPayload, b: EffectPayload) -> bool {
    &&& a.path.deep_view() == b.path.deep_view()
    &&& a.content.deep_view() == b.content.deep_view()
    &&& a.operation.deep_view() == b.operation.deep_view()
    &&& a.command.deep_view() == b.command.deep_view()
    &&& a.args.deep_view() == b.args.deep_view()
    &&& a.cwd.deep_view() == b.cwd.deep_view()
    &&& a.url.deep_view() == b.url.deep_view()
    &&& a.method.deep_view() == b.method.deep_view()
    &&& a.headers.deep_view() == b.headers.deep_view()
    &&& a.description.deep_view() == b.description.deep_view()
}

/// A copy of a vector of string pairs with the same contents.
pub fn clone_string_pairs(v: &Vec<(String, String)>) -> (r: Vec<(String, String)>)
    ensures
        r.deep_view() == v.deep_view(),
{
    let mut r: Vec<(String, String)> = Vec::new();
    let mut i: usize = 0;
    while i < v.len()
        invariant
            0 <= i <= v.len(),
            r.deep_view() =~= v.deep_view().subrange(0, i as int),
        decreases v.len() - i,
    {
        r.push((v[i].0.clone(), v[i].1.clone()));
        proof {
            assert(v.deep_view().subrange(0, i as int + 1)
                =~= v.deep_view().subrange(0, i as int).push(v.deep_view()[i as int]));
            assert(r.deep_view() =~= v.deep_view().subrange(0, i as int + 1));
        }
        i = i + 1;
    }
    proof {
        assert(v.deep_view().subrange(0, v.len() as int) =~= v.deep_view());
    }
    r
}

impl EffectPayload {
    /// A copy of this payload with the same contents.
    pub fn duplicate(&self) -> (r: EffectPayload)
        ensures
            payload_eq(*self, r),
    {
        EffectPayload {
            path: clone_opt_string(&self.path),
            content: clone_opt_string(&self.content),
            operation: clone_opt_string(&self.operation),
            command: clone_opt_string(&self.command),
            args: clone_opt_string_vec(&self.args),
            cwd: clone_opt_string(&self.cwd),
            url: clone_opt_string(&self.url),
            method: clone_opt_string(&self.method),
            headers: match &self.headers {
                Some(hs) => Some(clone_string_pairs(hs)),
                None => None,
            },
            description: clone_opt_string(&self.description),
        }
    }
}

/// Task context a request may carry.
#[derive(Debug, Clone)]
pub struct EffectContext {
    pub task_id: Option<String>,
    pub tool_name: Option<String>,
    pub reasoning: Option<String>,
}

/// Two optional contexts hold the same fields.
pub open spec fn context_eq(a: Option<EffectContext>, b: Option<EffectContext>) -> bool {
    match (a, b) {
        (Some(x), Some(y)) => {
            &&& x.task_id.deep_view() == y.task_id.deep_view()
            &&& x.tool_name.deep_view() == y.tool_name.deep_view()
            &&& x.reasoning.deep_view() == y.reasoning.deep_view()
        }
        (None, None) => true,
        _ => false,
    }
}

/// Two optional scopes hold the same contents.
pub open spec fn scope_opt_eq(a: Option<EffectScope>, b: Option<EffectScope>) -> bool {
    match (a, b) {
        (Some(x), Some(y)) => scope_eq(x, y),
        (None, None) => true,
        _ => false,
    }
}

/// An immutable effect request from the agent.
#[derive(Debug, Clone)]
pub struct EffectRequest {
    pub id: String,
    pub timestamp: String,
    pub effect_type: EffectType,
    pub source: EffectSource,
    pub source_id: Option<String>,
    pub payload: EffectPayload,
    pub context: Option<EffectContext>,
    pub scope: Option<EffectScope>,
}

/// Two requests hold the same fields.
pub open spec fn request_eq(a: EffectRequest, b: EffectRequest) -> bool {
    &&& a.id@ == b.id@
    &&& a.timestamp@ == b.timestamp@
    &&& a.effect_type == b.effect_type
    &&& a.source == b.source
    &&& a.source_id.deep_view() == b.source_id.deep_view()
    &&& payload_eq(a.payload, b.payload)
    &&& context_eq(a.context, b.context)
    &&& scope_opt_eq(a.scope, b.scope)
}

impl EffectRequest {
    /// A copy of this request with the same contents.
    pub fn duplicate(&self) -> (r: EffectRequest)
        ensures
            request_eq(*self, r),
    {
        EffectRequest {
            id: self.id.clone(),
            timestamp: self.timestamp.clone(),
            effect_type: self.effect_type,
            source: self.source,
            source_id: clone_opt_string(&self.source_id),
            payload: self.payload.duplicate(),
            context: match &self.context {
                Some(c) => Some(EffectContext {
                    task_id: clone_opt_string(&c.task_id),
                    tool_name: clone_opt_string(&c.tool_name),
                    reasoning: clone_opt_string(&c.reasoning),
                }),
                None => None,
            },
            scope: match &self.scope {
                Some(s) => Some(s.duplicate()),
                None => None,
            },
        }
    }
}

/// The host's answer to an effect request.
#[derive(Debug, Clone)]
pub struct EffectResponse {
    pub request_id: String,
    pub timestamp: String,
    pub approved: bool,
    pub approval_type: Option<ConfirmationPolicy>,
    pub expires_at: Option<String>,
    pub denial_reason: Option<String>,
    pub denial_code: Option<String>,
    pub modified_scope: Option<EffectScope>,
}

/// Identity an agent registers for a session.
#[derive(Debug, Clone)]
pub struct AgentIdentity {
    pub session_id: String,
    pub parent_session_id: Option<String>,
    pub user_id: Option<String>,
    pub capabilities: Vec<String>,
    pub ephemeral: bool,
}

/// A recorded delegation from one agent session to another.
#[derive(Debug, Clone)]
pub struct AgentDelegation {
    pub parent_session_id: String,
    pub child_session_id: String,
    pub reason: Option<String>,
}

/// A reported gateway decision, retained for audit export.
#[derive(Debug, Clone)]
pub struct McpGatewayDecision {
    pub server_id: String,
    pub tool_name: String,
    pub tool_id: Option<String>,
    pub decision: String,
    pub risk_score: Option<u8>,
    pub reason: Option<String>,
    pub policy_id: Option<String>,
    pub duration_ms: Option<u64>,
}

/// A reported runtime security alert, retained for audit export.
#[derive(Debug, Clone)]
pub struct RuntimeSecurityAlert {
    pub threat_type: String,
    pub score: u8,
    pub action: String,
    pub detail: Option<String>,
    pub redaction_applied: Option<bool>,
}

/// Three lists of patterns: command prefixes, domain fragments, path
/// prefixes.
#[derive(Debug, Clone)]
pub struct PolicyLists {
    pub commands: Vec<String>,
    pub domains: Vec<String>,
    pub paths: Vec<String>,
}

impl Default for PolicyLists {
    /// Empty lists.
    fn default() -> (r: Self)
        ensures
            r.commands@ == Seq::<String>::empty(),
            r.domains@ == Seq::<String>::empty(),
            r.paths@ == Seq::<String>::empty(),
    {
        PolicyLists { commands: Vec::new(), domains: Vec::new(), paths: Vec::new() }
    }
}

/// Reserved for future per-request overrides.
#[derive(Debug, Clone)]
pub struct PolicyOverrides {}

/// The user-controlled policy configuration: the confirmation policy for
/// each effect type, allow and block lists, and the unconditionally
/// denied effect types.
#[derive(Debug, Clone)]
pub struct PolicyConfig {
    pub default_policies: Vec<(EffectType, ConfirmationPolicy)>,
    pub allowlists: PolicyLists,
    pub blocklists: PolicyLists,
    pub denied_effects: Vec<EffectType>,
}

/// The confirmation policy an association list assigns to an effect
/// type; `Always` when the type is absent.
pub open spec fn spec_policy_for(
    ps: Seq<(EffectType, ConfirmationPolicy)>,
    t: EffectType,
) -> ConfirmationPolicy
    decreases ps.len(),
{
    if ps.len() == 0 {
        ConfirmationPolicy::Always
    } else if ps[0].0 == t {
        ps[0].1
    } else {
        spec_policy_for(ps.skip(1), t)
    }
}

/// The default configuration's exact contents.
pub open spec fn spec_default_config(c: PolicyConfig) -> bool {
    &&& c.default_policies@ =~= seq![
        (EffectType::FilesystemRead, ConfirmationPolicy::Never),
        (EffectType::FilesystemWrite, ConfirmationPolicy::Always),
        (EffectType::ShellRead, ConfirmationPolicy::Once),
        (EffectType::ShellWrite, ConfirmationPolicy::Always),
        (EffectType::NetworkOutbound, ConfirmationPolicy::Once),
        (EffectType::SecretsRead, ConfirmationPolicy::Always),
        (EffectType::ScreenCapture, ConfirmationPolicy::Always),
        (EffectType::UiControl, ConfirmationPolicy::Always),
    ]
    &&& c.allowlists.commands@ == Seq::<String>::empty()
    &&& c.allowlists.domains@ == Seq::<String>::empty()
    &&& c.allowlists.paths@ == Seq::<String>::empty()
    &&& c.blocklists.commands@ == Seq::<String>::empty()
    &&& c.blocklists.domains@ == Seq::<String>::empty()
    &&& c.blocklists.paths@ == Seq::<String>::empty()
    &&& c.denied_effects@ =~= seq![EffectType::SecretsRead, EffectType::UiControl]
}

impl PolicyConfig {
    /// The conservative default posture: filesystem reads never ask,
    /// writes and the sensitive effects always ask, shell reads and
    /// outbound network ask once; secrets and UI control are denied
    /// outright.
    pub fn default_config() -> (r: Self)
        ensures
            r.default_policies@ =~= seq![
                (EffectType::FilesystemRead, ConfirmationPolicy::Never),
                (EffectType::FilesystemWrite, ConfirmationPolicy::Always),
                (EffectType::ShellRead, ConfirmationPolicy::Once),
                (EffectType::ShellWrite, ConfirmationPolicy::Always),
                (EffectType::NetworkOutbound, ConfirmationPolicy::Once),
                (EffectType::SecretsRead, ConfirmationPolicy::Always),
                (EffectType::ScreenCapture, ConfirmationPolicy::Always),
                (EffectType::UiControl, ConfirmationPolicy::Always),
            ],
            r.allowlists.commands@ == Seq::<String>::empty(),
            r.allowlists.domains@ == Seq::<String>::empty(),
            r.allowlists.paths@ == Seq::<String>::empty(),
            r.blocklists.commands@ == Seq::<String>::empty(),
            r.blocklists.domains@ == Seq::<String>::empty(),
            r.blocklists.paths@ == Seq::<String>::empty(),
            r.denied_effects@ =~= seq![EffectType::SecretsRead, EffectType::UiControl],
            spec_default_config(r),
    {
        let mut default_policies: Vec<(EffectType, ConfirmationPolicy)> = Vec::new();
        default_policies.push((EffectType::FilesystemRead, ConfirmationPolicy::Never));
        default_policies.push((EffectType::FilesystemWrite, ConfirmationPolicy::Always));
        default_policies.push((EffectType::ShellRead, ConfirmationPolicy::Once));
        default_policies.push((EffectType::ShellWrite, ConfirmationPolicy::Always));
        default_policies.push((EffectType::NetworkOutbound, ConfirmationPolicy::Once));
        default_policies.push((EffectType::SecretsRead, ConfirmationPolicy::Always));
        default_policies.push((EffectType::ScreenCapture, ConfirmationPolicy::Always));
        default_policies.push((EffectType::UiControl, ConfirmationPolicy::Always));

        let mut denied_effects: Vec<EffectType> = Vec::new();
        denied_effects.push(EffectType::SecretsRead);
        denied_effects.push(EffectType::UiControl);

        PolicyConfig {
            default_policies,
            allowlists: PolicyLists::default(),
            blocklists: PolicyLists::default(),
            denied_effects,
        }
    }

    /// The confirmation policy configured for an effect type.
    pub fn policy_for(&self, t: EffectType) -> (r: ConfirmationPolicy)
        ensures
            r == spec_policy_for(self.default_policies@, t),
    {
        let ghost ps = self.default_policies@;
        proof {
            assert(ps.skip(0) =~= ps);
        }
        let mut i: usize = 0;
        while i < self.default_policies.len()
            invariant
                ps == self.default_policies@,
                0 <= i <= ps.len(),
                spec_policy_for(ps.skip(i as int), t) == spec_policy_for(ps, t),
            decreases ps.len() - i,
        {
            proof {
                assert(ps.skip(i as int)[0] == ps[i as int]);
                assert(ps.skip(i as int).skip(1) =~= ps.skip(i as int + 1));
            }
            if self.default_policies[i].0 == t {
                return self.default_policies[i].1;
            }
            i = i + 1;
        }
        proof {
            assert(ps.skip(ps.len() as int) =~= Seq::<(EffectType, ConfirmationPolicy)>::empty());
        }
        ConfirmationPolicy::Always
    }
}

/// The origin of a request.
#[derive(Debug, Clone)]
pub struct RequestOrigin {
    pub source: EffectSource,
    pub source_id: Option<String>,
}

} // verus!
