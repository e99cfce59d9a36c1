//! The confirmation broker: evaluates requests through the engine, holds
//! the decisions awaiting the user, and settles each pending confirmation
//! exactly once.

use vstd::prelude::*;

use crate::clock::now_rfc3339;
use crate::strutil::string_eq;
use super::audit::AuditEvent;
use super::engine::{
    evaluate_post, spec_blocklisted, spec_denied_effect, PolicyDecision, PolicyEngine,
    PolicyOutcome,
};
use super::types::{
    request_eq, spec_effect_type_name, spec_policy_for, AgentDelegation, AgentIdentity,
    ConfirmationPolicy, EffectRequest, EffectResponse, EffectSource, EffectType,
    McpGatewayDecision, PolicyConfig, RuntimeSecurityAlert,
};

verus! {

/// The record held between the engine's "ask the user" decision and the
/// user's confirm or deny, keyed by the request id.
#[derive(Debug, Clone)]
pub struct PendingConfirmation {
    pub request: EffectRequest,
    pub outcome: PolicyOutcome,
    pub requested_at: String,
}

/// Whether an association list holds the key.
pub open spec fn has_key<T>(v: Seq<(String, T)>, id: Seq<char>) -> bool {
    exists|k: int| 0 <= k < v.len() && (#[trigger] v[k]).0@ == id
}

/// The keys of an association list are pairwise distinct.
pub open spec fn keys_unique<T>(v: Seq<(String, T)>) -> bool {
    forall|p: int, q: int|
        0 <= p < q < v.len() ==> (#[trigger] v[p]).0@ != (#[trigger] v[q]).0@
}

/// The index of the entry with the given key, if any.
fn find_key_index<T>(v: &Vec<(String, T)>, id: &String) -> (r: Option<usize>)
    ensures
        match r {
            Some(k) => 0 <= k < v@.len() && v@[k as int].0@ == id@,
            None => !has_key(v@, id@),
        },
{
    let mut i: usize = 0;
    while i < v.len()
        invariant
            0 <= i <= v@.len(),
            forall|q: int| 0 <= q < i ==> (#[trigger] v@[q]).0@ != id@,
        decreases v@.len() - i,
    {
        if string_eq(&v[i].0, id) {
            return Some(i);
        }
        i = i + 1;
    }
    None
}

/// Every pending entry is keyed by its own request id.
pub open spec fn pending_wf(v: Seq<(String, PendingConfirmation)>) -> bool {
    &&& keys_unique(v)
    &&& forall|k: int|
        0 <= k < v.len() ==> (#[trigger] v[k]).1.request.id@ == v[k].0@
            && v[k].1.outcome.request_id@ == v[k].0@
}

/// The pending entry stored under an id, when one is there; used only
/// under `has_key`.
pub open spec fn pending_entry_of(
    v: Seq<(String, PendingConfirmation)>,
    id: Seq<char>,
) -> PendingConfirmation {
    let k = choose|k: int| 0 <= k < v.len() && (#[trigger] v[k]).0@ == id;
    v[k].1
}

/// The entry found under an id sits at the index `find_key_index` returns.
proof fn pending_entry_at(v: Seq<(String, PendingConfirmation)>, id: Seq<char>, k: int)
    requires
        pending_wf(v),
        0 <= k < v.len(),
        v[k].0@ == id,
    ensures
        pending_entry_of(v, id) == v[k].1,
        has_key(v, id),
{
    let c = choose|c: int| 0 <= c < v.len() && (#[trigger] v[c]).0@ == id;
    if c != k {
        assert(v[if c < k { c } else { k }].0@ != v[if c < k { k } else { c }].0@);
    }
}

/// The advisory risk level shown to the user for each effect type.
pub open spec fn spec_risk(t: EffectType) -> u8 {
    match t {
        EffectType::FilesystemRead => 20,
        EffectType::FilesystemWrite => 70,
        EffectType::ShellRead => 30,
        EffectType::ShellWrite => 90,
        EffectType::NetworkOutbound => 50,
        EffectType::SecretsRead => 100,
        EffectType::ScreenCapture => 60,
        EffectType::UiControl => 100,
    }
}

/// The label of a confirmation policy on the UI surface.
pub open spec fn spec_policy_label(p: ConfirmationPolicy) -> Seq<char> {
    match p {
        ConfirmationPolicy::Always => "always"@,
        ConfirmationPolicy::Once => "once"@,
        ConfirmationPolicy::Session => "session"@,
        ConfirmationPolicy::Permanent => "permanent"@,
        ConfirmationPolicy::Never => "never"@,
    }
}

/// The label of a request source on the UI surface.
pub open spec fn spec_source_label(s: EffectSource) -> Seq<char> {
    match s {
        EffectSource::Agent => "agent"@,
        EffectSource::Toolpack => "toolpack"@,
        EffectSource::ClaudeSkill => "claude_skill"@,
    }
}

/// The confirmation prompt sent to the user interface.
#[derive(Debug, Clone)]
pub struct ConfirmationRequest {
    pub request_id: String,
    pub effect_type: String,
    pub source: String,
    pub source_id: Option<String>,
    pub description: String,
    pub details: Vec<(String, String)>,
    pub risk_level: u8,
    pub policy: String,
}

impl ConfirmationRequest {
    /// The advisory risk level for an effect type.
    pub fn calculate_risk(effect_type: &EffectType) -> (r: u8)
        ensures
            r == spec_risk(*effect_type),
    {
        match effect_type {
            EffectType::FilesystemRead => 20,
            EffectType::FilesystemWrite => 70,
            EffectType::ShellRead => 30,
            EffectType::ShellWrite => 90,
            EffectType::NetworkOutbound => 50,
            EffectType::SecretsRead => 100,
            EffectType::ScreenCapture => 60,
            EffectType::UiControl => 100,
        }
    }

    /// The prompt for a request held under the given policy: the request's
    /// description (or its stated reasoning, or a generic line), the
    /// relevant payload details, and the advisory risk level.
    pub fn from_request(request: &EffectRequest, policy: &ConfirmationPolicy) -> (r: Self)
        ensures
            r.request_id@ == request.id@,
            r.effect_type@ == spec_effect_type_name(request.effect_type),
            r.source@ == spec_source_label(request.source),
            r.source_id.deep_view() == request.source_id.deep_view(),
            r.risk_level == spec_risk(request.effect_type),
            r.policy@ == spec_policy_label(*policy),
            match request.payload.description {
                Some(d) => r.description@ == d@,
                None => match request.context {
                    Some(c) => match c.reasoning {
                        Some(re) => r.description@ == re@,
                        None => r.description@ == "Request for "@ + spec_effect_type_name(
                            request.effect_type,
                        ) + " access"@,
                    },
                    None => r.description@ == "Request for "@ + spec_effect_type_name(
                        request.effect_type,
                    ) + " access"@,
                },
            },
    {
        let mut details: Vec<(String, String)> = Vec::new();
        if let Some(path) = &request.payload.path {
            details.push(("path".to_owned(), path.clone()));
        }
        if let Some(command) = &request.payload.command {
            details.push(("command".to_owned(), command.clone()));
        }
        if let Some(url) = &request.payload.url {
            details.push(("url".to_owned(), url.clone()));
        }
        if let Some(desc) = &request.payload.description {
            details.push(("description".to_owned(), desc.clone()));
        }

        let description: String = match &request.payload.description {
            Some(d) => d.clone(),
            None => {
                let reasoning: Option<String> = match &request.context {
                    Some(c) => match &c.reasoning {
                        Some(re) => Some(re.clone()),
                        None => None,
                    },
                    None => None,
                };
                match reasoning {
                    Some(re) => re,
                    None => {
                        let mut d = String::new();
                        d.append("Request for ");
                        d.append(request.effect_type.as_str());
                        d.append(" access");
                        d
                    }
                }
            }
        };

        let source = match request.source {
            EffectSource::Agent => "agent",
            EffectSource::Toolpack => "toolpack",
            EffectSource::ClaudeSkill => "claude_skill",
        };

        ConfirmationRequest {
            request_id: request.id.clone(),
            effect_type: request.effect_type.as_str().to_owned(),
            source: source.to_owned(),
            source_id: crate::strutil::clone_opt_string(&request.source_id),
            description,
            details,
            risk_level: Self::calculate_risk(&request.effect_type),
            policy: match policy {
                ConfirmationPolicy::Always => "always".to_owned(),
                ConfirmationPolicy::Once => "once".to_owned(),
                ConfirmationPolicy::Session => "session".to_owned(),
                ConfirmationPolicy::Permanent => "permanent".to_owned(),
                ConfirmationPolicy::Never => "never".to_owned(),
            },
        }
    }
}

/// The user's confirmation of a pending request.
#[derive(Debug, Clone)]
pub struct ConfirmEffectInput {
    pub request_id: String,
    pub remember: bool,
}

/// The user's denial of a pending request.
#[derive(Debug, Clone)]
pub struct DenyEffectInput {
    pub request_id: String,
    pub reason: Option<String>,
}

/// What handling an effect request produced: the wire response, the one
/// audit record of the decision, and the confirmation prompt to surface
/// when the decision awaits the user.
pub struct RequestEffectOutput {
    pub response: EffectResponse,
    pub audit: AuditEvent,
    pub confirmation: Option<ConfirmationRequest>,
}

/// Everything handling one effect request promises: the components other
/// than the pending confirmations are untouched, exactly one audit record
/// of type `request` is produced, and the response, the prompt and the
/// held entry follow the engine's decision for the configuration and the
/// request.
pub open spec fn request_effect_post(
    pre: PolicyEngineState,
    post: PolicyEngineState,
    request: EffectRequest,
    response: EffectResponse,
    audit: AuditEvent,
    confirmation: Option<ConfirmationRequest>,
) -> bool {
    &&& post.engine == pre.engine
    &&& post.identities == pre.identities
    &&& post.delegations == pre.delegations
    &&& post.mcp_decisions == pre.mcp_decisions
    &&& post.runtime_alerts == pre.runtime_alerts
    &&& audit.event_type@ == "request"@
    &&& request_eq(audit.request, request)
    &&& response.request_id@ == request.id@
    &&& {
        let cfg = pre.engine.config;
        if spec_denied_effect(cfg, request.effect_type) || spec_blocklisted(cfg, request) {
            &&& response.approved == false
            &&& (response.denial_code matches Some(c) && c@ == "policy_blocked"@)
            &&& (response.denial_reason matches Some(d) && d@ == (if spec_denied_effect(
                cfg,
                request.effect_type,
            ) {
                "effect type denied by policy"@
            } else {
                "request blocked by policy lists"@
            }))
            &&& confirmation is None
            &&& post.pending_confirmations@ == pre.pending_confirmations@
        } else if spec_policy_for(cfg.default_policies@, request.effect_type)
            == ConfirmationPolicy::Never {
            &&& response.approved == true
            &&& response.approval_type == Some(ConfirmationPolicy::Never)
            &&& confirmation is None
            &&& post.pending_confirmations@ == pre.pending_confirmations@
        } else {
            &&& response.approved == false
            &&& (response.denial_reason matches Some(d) && d@ == "awaiting_confirmation"@)
            &&& response.denial_code is None
            &&& (confirmation matches Some(c) && {
                &&& c.request_id@ == request.id@
                &&& c.risk_level == spec_risk(request.effect_type)
                &&& c.effect_type@ == super::types::spec_effect_type_name(request.effect_type)
                &&& c.source@ == spec_source_label(request.source)
                &&& c.policy@ == spec_policy_label(
                    spec_policy_for(cfg.default_policies@, request.effect_type),
                )
            })
            &&& has_key(post.pending_confirmations@, request.id@)
            &&& forall|k: int|
                0 <= k < post.pending_confirmations@.len()
                    && (#[trigger] post.pending_confirmations@[k]).0@ == request.id@
                    ==> request_eq(post.pending_confirmations@[k].1.request, request)
                        && evaluate_post(cfg, request,
                            post.pending_confirmations@[k].1.outcome)
        }
    }
}

/// The engine together with the pending confirmations and the registries
/// of reported agent activity. The embedding application guards it by a
/// lock and sinks the returned audit records and UI prompts.
pub struct PolicyEngineState {
    pub engine: PolicyEngine,
    pub pending_confirmations: Vec<(String, PendingConfirmation)>,
    pub identities: Vec<(String, AgentIdentity)>,
    pub delegations: Vec<AgentDelegation>,
    pub mcp_decisions: Vec<McpGatewayDecision>,
    pub runtime_alerts: Vec<RuntimeSecurityAlert>,
}

impl PolicyEngineState {
    /// A fresh state over the default configuration, with nothing pending
    /// and empty registries.
    pub fn new() -> (r: Self)
        ensures
            super::types::spec_default_config(r.engine.config),
            r.pending_confirmations@ == Seq::<(String, PendingConfirmation)>::empty(),
            r.identities@ == Seq::<(String, AgentIdentity)>::empty(),
            r.delegations@ == Seq::<AgentDelegation>::empty(),
            r.mcp_decisions@ == Seq::<McpGatewayDecision>::empty(),
            r.runtime_alerts@ == Seq::<RuntimeSecurityAlert>::empty(),
            pending_wf(r.pending_confirmations@),
    {
        let config = PolicyConfig::default_config();
        PolicyEngineState {
            engine: PolicyEngine::new(config),
            pending_confirmations: Vec::new(),
            identities: Vec::new(),
            delegations: Vec::new(),
            mcp_decisions: Vec::new(),
            runtime_alerts: Vec::new(),
        }
    }

    /// Handle an effect request: evaluate it, audit the decision (exactly
    /// one record), and either answer it at once or hold it for the user.
    #[verifier::loop_isolation(false)]
    pub fn request_effect(&mut self, request: EffectRequest) -> (r: RequestEffectOutput)
        requires
            pending_wf(old(self).pending_confirmations@),
        ensures
            pending_wf(final(self).pending_confirmations@),
            request_effect_post(
                *old(self),
                *final(self),
                request,
                r.response,
                r.audit,
                r.confirmation,
            ),
    {
        let outcome = self.engine.evaluate(&request);
        let audit = AuditEvent::request(&request, &outcome);

        let is_confirmation = match &outcome.decision {
            PolicyDecision::RequiresUserConfirmation { .. } => true,
            _ => false,
        };

        if !is_confirmation {
            let approved = match &outcome.decision {
                PolicyDecision::Approved { .. } => true,
                _ => false,
            };
            let response = self.engine.to_response(outcome, approved);
            return RequestEffectOutput { response, audit, confirmation: None };
        }

        let policy = match &outcome.decision {
            PolicyDecision::RequiresUserConfirmation { policy, .. } => *policy,
            _ => ConfirmationPolicy::Always,
        };
        let confirmation = ConfirmationRequest::from_request(&request, &policy);
        let id = request.id.clone();
        let response = EffectResponse {
            request_id: request.id.clone(),
            timestamp: now_rfc3339(),
            approved: false,
            approval_type: None,
            expires_at: None,
            denial_reason: Some("awaiting_confirmation".to_owned()),
            denial_code: None,
            modified_scope: None,
        };
        let ghost req = request;
        let entry = PendingConfirmation {
            request,
            outcome,
            requested_at: now_rfc3339(),
        };
        let ghost oldp = self.pending_confirmations@;
        let ghost gentry = entry;
        let mut at: usize = 0;
        match find_key_index(&self.pending_confirmations, &id) {
            Some(k) => {
                self.pending_confirmations.set(k, (id, entry));
                at = k;
                proof {
                    assert(self.pending_confirmations@ == oldp.update(k as int, (req.id, gentry)));
                }
            }
            None => {
                self.pending_confirmations.push((id, entry));
                at = self.pending_confirmations.len() - 1;
                proof {
                    assert(self.pending_confirmations@ == oldp.push((req.id, gentry)));
                }
            }
        }
        proof {
            let newp = self.pending_confirmations@;
            assert(newp[at as int].0@ == req.id@);
            assert(newp[at as int].1 == gentry);
            assert forall|p: int, q: int|
                0 <= p < q < newp.len()
                    implies (#[trigger] newp[p]).0@ != (#[trigger] newp[q]).0@ by {
                if p != at as int && q != at as int {
                    assert(newp[p] == oldp[p] && newp[q] == oldp[q]);
                    assert(oldp[p].0@ != oldp[q].0@);
                } else if p == at as int {
                    assert(newp[q] == oldp[q]);
                    if (at as int) < oldp.len() {
                        assert(oldp[at as int].0@ == req.id@);
                        assert(oldp[at as int].0@ != oldp[q].0@);
                    }
                } else {
                    assert(newp[p] == oldp[p]);
                    if (at as int) < oldp.len() {
                        assert(oldp[at as int].0@ == req.id@);
                        assert(oldp[p].0@ != oldp[at as int].0@);
                    } else {
                        assert(!has_key(oldp, req.id@));
                    }
                }
            }
            assert forall|m: int|
                0 <= m < newp.len() implies (#[trigger] newp[m]).1.request.id@ == newp[m].0@
                    && newp[m].1.outcome.request_id@ == newp[m].0@ by {
                if m != at as int {
                    assert(newp[m] == oldp[m]);
                }
            }
            assert(has_key(newp, req.id@));
            assert forall|m: int|
                0 <= m < newp.len() && (#[trigger] newp[m]).0@ == req.id@
                    implies request_eq(newp[m].1.request, req)
                        && evaluate_post(old(self).engine.config, req, newp[m].1.outcome) by {
                if m != at as int {
                    assert(newp[m] == oldp[m]);
                    if (at as int) < oldp.len() {
                        assert(oldp[m].0@ != oldp[at as int].0@);
                    } else {
                        assert(!has_key(oldp, req.id@));
                    }
                }
            }
        }
        RequestEffectOutput { response, audit, confirmation: Some(confirmation) }
    }

    /// Settle a pending confirmation as approved by the user. Succeeds
    /// exactly when the id is pending; the entry is removed, the response
    /// answers it approved, and exactly one audit record is produced.
    pub fn confirm_effect(&mut self, input: ConfirmEffectInput) -> (r: Result<
        (EffectResponse, AuditEvent),
        String,
    >)
        requires
            pending_wf(old(self).pending_confirmations@),
        ensures
            pending_wf(final(self).pending_confirmations@),
            final(self).engine == old(self).engine,
            r is Ok <==> has_key(old(self).pending_confirmations@, input.request_id@),
            r matches Ok((resp, audit)) ==> {
                &&& resp.approved == true
                &&& resp.request_id@ == input.request_id@
                &&& (match pending_entry_of(
                    old(self).pending_confirmations@,
                    input.request_id@,
                ).outcome.decision {
                    PolicyDecision::RequiresUserConfirmation { policy, .. } => resp.approval_type
                        == Some(policy),
                    PolicyDecision::Approved { approval_type, .. } => resp.approval_type
                        == Some(approval_type),
                    PolicyDecision::Denied { .. } => resp.approval_type is None,
                })
                &&& audit.event_type@ == "confirmed"@
                &&& audit.request.id@ == input.request_id@
                &&& !has_key(final(self).pending_confirmations@, input.request_id@)
                &&& exists|k: int|
                    0 <= k < old(self).pending_confirmations@.len()
                        && (#[trigger] old(self).pending_confirmations@[k]).0@
                            == input.request_id@
                        && final(self).pending_confirmations@
                            == old(self).pending_confirmations@.remove(k)
            },
            r matches Err(msg) ==> {
                &&& final(self).pending_confirmations@ == old(self).pending_confirmations@
                &&& msg@ == "No pending confirmation found for "@ + input.request_id@
            },
    {
        let found = find_key_index(&self.pending_confirmations, &input.request_id);
        match found {
            None => {
                let mut msg = String::new();
                msg.append("No pending confirmation found for ");
                msg.append(input.request_id.as_str());
                Err(msg)
            }
            Some(k) => {
                let ghost oldp = self.pending_confirmations@;
                proof {
                    pending_entry_at(oldp, input.request_id@, k as int);
                }
                let (key, pending) = self.pending_confirmations.remove(k);
                proof {
                    lemma_remove_keeps_wf(oldp, k as int);
                }
                let response = self.engine.to_response(pending.outcome, true);
                let audit = AuditEvent::confirmed(&pending.request, input.remember);
                proof {
                    assert(oldp[k as int].1.outcome.request_id@ == input.request_id@);
                }
                Ok((response, audit))
            }
        }
    }

    /// Settle a pending confirmation as denied by the user. Succeeds
    /// exactly when the id is pending; the entry is removed, the response
    /// answers it denied as the user said, and exactly one audit record is
    /// produced.
    pub fn deny_effect(&mut self, input: DenyEffectInput) -> (r: Result<
        (EffectResponse, AuditEvent),
        String,
    >)
        requires
            pending_wf(old(self).pending_confirmations@),
        ensures
            pending_wf(final(self).pending_confirmations@),
            final(self).engine == old(self).engine,
            r is Ok <==> has_key(old(self).pending_confirmations@, input.request_id@),
            r matches Ok((resp, audit)) ==> {
                &&& resp.approved == false
                &&& resp.request_id@ == input.request_id@
                &&& (resp.denial_code matches Some(c) && c@ == "user_denied"@)
                &&& (match input.reason {
                    Some(why) => resp.denial_reason matches Some(d) && d@ == why@,
                    None => resp.denial_reason matches Some(d) && d@ == "user_denied"@,
                })
                &&& audit.event_type@ == "denied"@
                &&& audit.request.id@ == input.request_id@
                &&& !has_key(final(self).pending_confirmations@, input.request_id@)
                &&& exists|k: int|
                    0 <= k < old(self).pending_confirmations@.len()
                        && (#[trigger] old(self).pending_confirmations@[k]).0@
                            == input.request_id@
                        && final(self).pending_confirmations@
                            == old(self).pending_confirmations@.remove(k)
            },
            r matches Err(msg) ==> {
                &&& final(self).pending_confirmations@ == old(self).pending_confirmations@
                &&& msg@ == "No pending confirmation found for "@ + input.request_id@
            },
    {
        let found = find_key_index(&self.pending_confirmations, &input.request_id);
        match found {
            None => {
                let mut msg = String::new();
                msg.append("No pending confirmation found for ");
                msg.append(input.request_id.as_str());
                Err(msg)
            }
            Some(k) => {
                let ghost oldp = self.pending_confirmations@;
                let (key, pending) = self.pending_confirmations.remove(k);
                proof {
                    lemma_remove_keeps_wf(oldp, k as int);
                }
                let reason: String = match &input.reason {
                    Some(why) => why.clone(),
                    None => "user_denied".to_owned(),
                };
                let response = EffectResponse {
                    request_id: input.request_id.clone(),
                    timestamp: now_rfc3339(),
                    approved: false,
                    approval_type: None,
                    expires_at: None,
                    denial_reason: Some(reason),
                    denial_code: Some("user_denied".to_owned()),
                    modified_scope: None,
                };
                let audit = AuditEvent::denied(&pending.request, input.reason.as_ref());
                proof {
                    assert(oldp[k as int].1.request.id@ == input.request_id@);
                }
                Ok((response, audit))
            }
        }
    }

    /// The pending confirmations, one prompt per entry, for display.
    pub fn get_pending_confirmations(&self) -> (r: Vec<ConfirmationRequest>)
        requires
            pending_wf(self.pending_confirmations@),
        ensures
            r@.len() == self.pending_confirmations@.len(),
            forall|k: int|
                0 <= k < r@.len() ==> (#[trigger] r@[k]).request_id@
                    == self.pending_confirmations@[k].0@,
    {
        let mut r: Vec<ConfirmationRequest> = Vec::new();
        let mut i: usize = 0;
        while i < self.pending_confirmations.len()
            invariant
                0 <= i <= self.pending_confirmations@.len(),
                r@.len() == i,
                forall|k: int|
                    0 <= k < i ==> (#[trigger] r@[k]).request_id@
                        == self.pending_confirmations@[k].1.request.id@,
            decreases self.pending_confirmations@.len() - i,
        {
            let p = &self.pending_confirmations[i].1;
            let policy = match &p.outcome.decision {
                PolicyDecision::RequiresUserConfirmation { policy, .. } => *policy,
                _ => ConfirmationPolicy::Always,
            };
            r.push(ConfirmationRequest::from_request(&p.request, &policy));
            i = i + 1;
        }
        proof {
            assert forall|k: int|
                0 <= k < r@.len() implies (#[trigger] r@[k]).request_id@
                    == self.pending_confirmations@[k].0@ by {
            }
        }
        r
    }

    /// Record an agent identity, replacing any earlier one for the same
    /// session.
    pub fn register_agent_identity(&mut self, identity: AgentIdentity) -> (r: Result<(), String>)
        requires
            keys_unique(old(self).identities@),
        ensures
            r is Ok,
            keys_unique(final(self).identities@),
            has_key(final(self).identities@, identity.session_id@),
            forall|k: int|
                0 <= k < final(self).identities@.len()
                    && (#[trigger] final(self).identities@[k]).0@ == identity.session_id@
                    ==> final(self).identities@[k].1 == identity,
            forall|j: int|
                0 <= j < old(self).identities@.len()
                    && (#[trigger] old(self).identities@[j]).0@ != identity.session_id@
                    ==> final(self).identities@[j] == old(self).identities@[j],
            final(self).pending_confirmations == old(self).pending_confirmations,
            final(self).engine == old(self).engine,
    {
        let ghost sid = identity.session_id;
        let key = identity.session_id.clone();
        let ghost oldv = self.identities@;
        let mut at: usize = 0;
        match find_key_index(&self.identities, &key) {
            Some(k) => {
                self.identities.set(k, (key, identity));
                at = k;
            }
            None => {
                self.identities.push((key, identity));
                at = self.identities.len() - 1;
            }
        }
        proof {
            let newv = self.identities@;
            assert(newv[at as int].0@ == sid@);
            assert(newv[at as int].1 == identity);
            assert(has_key(newv, sid@));
            assert forall|p: int, q: int|
                0 <= p < q < newv.len()
                    implies (#[trigger] newv[p]).0@ != (#[trigger] newv[q]).0@ by {
                if p != at as int && q != at as int {
                    assert(newv[p] == oldv[p] && newv[q] == oldv[q]);
                } else if p == at as int {
                    assert(newv[q] == oldv[q]);
                    if (at as int) < oldv.len() {
                        assert(oldv[at as int].0@ == sid@);
                        assert(oldv[at as int].0@ != oldv[q].0@);
                    }
                } else {
                    assert(newv[p] == oldv[p]);
                    if (at as int) < oldv.len() {
                        assert(oldv[at as int].0@ == sid@);
                        assert(oldv[p].0@ != oldv[at as int].0@);
                    } else {
                        assert(!has_key(oldv, sid@));
                    }
                }
            }
            assert forall|k: int|
                0 <= k < newv.len() && (#[trigger] newv[k]).0@ == sid@
                    implies newv[k].1 == identity by {
                if k != at as int {
                    assert(newv[if k < at as int { k } else { at as int }].0@
                        != newv[if k < at as int { at as int } else { k }].0@);
                }
            }
        }
        Ok(())
    }

    /// Record a delegation between two agent sessions.
    pub fn record_agent_delegation(&mut self, delegation: AgentDelegation) -> (r: Result<
        (),
        String,
    >)
        ensures
            r is Ok,
            final(self).delegations@ == old(self).delegations@.push(delegation),
            final(self).pending_confirmations == old(self).pending_confirmations,
            final(self).identities == old(self).identities,
            final(self).engine == old(self).engine,
    {
        self.delegations.push(delegation);
        Ok(())
    }

    /// Record a reported gateway decision.
    pub fn report_mcp_gateway_decision(&mut self, decision: McpGatewayDecision) -> (r: Result<
        (),
        String,
    >)
        ensures
            r is Ok,
            final(self).mcp_decisions@ == old(self).mcp_decisions@.push(decision),
            final(self).pending_confirmations == old(self).pending_confirmations,
            final(self).identities == old(self).identities,
            final(self).engine == old(self).engine,
    {
        self.mcp_decisions.push(decision);
        Ok(())
    }

    /// Record a reported runtime security alert.
    pub fn report_runtime_security_alert(&mut self, alert: RuntimeSecurityAlert) -> (r: Result<
        (),
        String,
    >)
        ensures
            r is Ok,
            final(self).runtime_alerts@ == old(self).runtime_alerts@.push(alert),
            final(self).pending_confirmations == old(self).pending_confirmations,
            final(self).identities == old(self).identities,
            final(self).engine == old(self).engine,
    {
        self.runtime_alerts.push(alert);
        Ok(())
    }
}

/// Removing an entry keeps the broker's well-formedness, and with keys
/// unique it removes the key entirely.
pub proof fn lemma_remove_keeps_wf(v: Seq<(String, PendingConfirmation)>, k: int)
    requires
        pending_wf(v),
        0 <= k < v.len(),
    ensures
        pending_wf(v.remove(k)),
        !has_key(v.remove(k), v[k].0@),
{
    let w = v.remove(k);
    assert forall|p: int, q: int|
        0 <= p < q < w.len() implies (#[trigger] w[p]).0@ != (#[trigger] w[q]).0@ by {
        let p0 = if p < k { p } else { p + 1 };
        let q0 = if q < k { q } else { q + 1 };
        assert(w[p] == v[p0]);
        assert(w[q] == v[q0]);
    }
    assert forall|i: int| 0 <= i < w.len() implies (#[trigger] w[i]).1.request.id@ == w[i].0@
        && w[i].1.outcome.request_id@ == w[i].0@ by {
        let i0 = if i < k { i } else { i + 1 };
        assert(w[i] == v[i0]);
    }
    assert forall|i: int| 0 <= i < w.len() implies (#[trigger] w[i]).0@ != v[k].0@ by {
        let i0 = if i < k { i } else { i + 1 };
        assert(w[i] == v[i0]);
    }
}

/// Exactly one settlement of a pending confirmation succeeds: settling
/// (confirming or denying) removes the id, and a settlement succeeds
/// exactly when the id is pending, so the second settlement of the same
/// id fails.
pub proof fn lemma_settle_exactly_once(
    v0: Seq<(String, PendingConfirmation)>,
    v1: Seq<(String, PendingConfirmation)>,
    id: Seq<char>,
    k: int,
)
    requires
        pending_wf(v0),
        0 <= k < v0.len(),
        v0[k].0@ == id,
        v1 == v0.remove(k),
    ensures
        !has_key(v1, id),
{
    lemma_remove_keeps_wf(v0, k);
}

} // verus!
