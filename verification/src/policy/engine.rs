use vstd::prelude::*;

use crate::clock::now_rfc3339;
use crate::strutil::{clone_string_vec, spec_contains, spec_starts_with, str_contains, str_starts_with};
use super::types::{
    ConfirmationPolicy, EffectRequest, EffectResponse, EffectScope, EffectType, PolicyConfig,
    scope_eq, spec_policy_for,
};

verus! {

/// What the engine decided about a request.
#[derive(Debug, Clone)]
pub enum PolicyDecision {
    Approved { approval_type: ConfirmationPolicy, modified_scope: Option<EffectScope> },
    RequiresUserConfirmation { policy: ConfirmationPolicy, modified_scope: Option<EffectScope> },
    Denied { reason: String, code: String },
}

/// The engine's full answer: the request it answers, when, and the
/// decision.
#[derive(Debug, Clone)]
pub struct PolicyOutcome {
    pub request_id: String,
    pub timestamp: String,
    pub decision: PolicyDecision,
}

/// The policy engine: a pure decision procedure over its configuration.
#[derive(Debug, Clone)]
pub struct PolicyEngine {
    pub config: PolicyConfig,
}

/// The request's effect type is unconditionally denied by the
/// configuration.
pub open spec fn spec_denied_effect(config: PolicyConfig, t: EffectType) -> bool {
    config.denied_effects@.contains(t)
}

/// The request's command starts with a blocklisted command prefix.
pub open spec fn spec_command_blocked(config: PolicyConfig, req: EffectRequest) -> bool {
    req.payload.command matches Some(c) && exists|i: int|
        0 <= i < config.blocklists.commands@.len()
            && spec_starts_with(c@, #[trigger] config.blocklists.commands@[i]@)
}

/// The request's URL contains a blocklisted domain fragment.
pub open spec fn spec_url_blocked(config: PolicyConfig, req: EffectRequest) -> bool {
    req.payload.url matches Some(u) && exists|i: int|
        0 <= i < config.blocklists.domains@.len()
            && spec_contains(u@, #[trigger] config.blocklists.domains@[i]@)
}

/// The request's path starts with a blocklisted path prefix.
pub open spec fn spec_path_blocked(config: PolicyConfig, req: EffectRequest) -> bool {
    req.payload.path matches Some(p) && exists|i: int|
        0 <= i < config.blocklists.paths@.len()
            && spec_starts_with(p@, #[trigger] config.blocklists.paths@[i]@)
}

/// One of the blocklists hits the request.
pub open spec fn spec_blocklisted(config: PolicyConfig, req: EffectRequest) -> bool {
    spec_command_blocked(config, req) || spec_url_blocked(config, req)
        || spec_path_blocked(config, req)
}

/// The command allowlist the narrowed scope must carry: the request's
/// own, or the configured one where the request has none and the
/// configuration's is not empty.
pub open spec fn spec_narrowed_commands(config: PolicyConfig, req: EffectRequest) -> Option<
    Seq<Seq<char>>,
> {
    let base = match req.scope {
        Some(sc) => sc.command_allowlist.deep_view(),
        None => None,
    };
    if config.allowlists.commands@.len() > 0 && base is None {
        Some(config.allowlists.commands.deep_view())
    } else {
        base
    }
}

/// The domain allowlist the narrowed scope must carry.
pub open spec fn spec_narrowed_domains(config: PolicyConfig, req: EffectRequest) -> Option<
    Seq<Seq<char>>,
> {
    let base = match req.scope {
        Some(sc) => sc.domain_allowlist.deep_view(),
        None => None,
    };
    if config.allowlists.domains@.len() > 0 && base is None {
        Some(config.allowlists.domains.deep_view())
    } else {
        base
    }
}

/// The workspace paths the narrowed scope must carry.
pub open spec fn spec_narrowed_paths(config: PolicyConfig, req: EffectRequest) -> Option<
    Seq<Seq<char>>,
> {
    let base = match req.scope {
        Some(sc) => sc.workspace_paths.deep_view(),
        None => None,
    };
    if config.allowlists.paths@.len() > 0 && base is None {
        Some(config.allowlists.paths.deep_view())
    } else {
        base
    }
}

/// The scope the engine hands back: the request's scope with the
/// configured allowlists injected where the request stated none, all
/// other fields kept.
pub open spec fn spec_scope_narrowed(config: PolicyConfig, req: EffectRequest, s: EffectScope) -> bool {
    let base_ext = match req.scope {
        Some(sc) => sc.allowed_extensions.deep_view(),
        None => None,
    };
    let base_excl = match req.scope {
        Some(sc) => sc.excluded_paths.deep_view(),
        None => None,
    };
    let base_cb = match req.scope {
        Some(sc) => sc.command_blocklist.deep_view(),
        None => None,
    };
    let base_db = match req.scope {
        Some(sc) => sc.domain_blocklist.deep_view(),
        None => None,
    };
    let base_max = match req.scope {
        Some(sc) => sc.max_file_size_bytes,
        None => None,
    };
    let base_timeout = match req.scope {
        Some(sc) => sc.timeout_ms,
        None => None,
    };
    &&& s.command_allowlist.deep_view() == spec_narrowed_commands(config, req)
    &&& s.domain_allowlist.deep_view() == spec_narrowed_domains(config, req)
    &&& s.workspace_paths.deep_view() == spec_narrowed_paths(config, req)
    &&& s.allowed_extensions.deep_view() == base_ext
    &&& s.excluded_paths.deep_view() == base_excl
    &&& s.command_blocklist.deep_view() == base_cb
    &&& s.domain_blocklist.deep_view() == base_db
    &&& s.max_file_size_bytes == base_max
    &&& s.timeout_ms == base_timeout
}

/// Everything `evaluate` promises of its outcome: the decision is a pure
/// function of the configuration and the request. Denied effect types are
/// denied first, then blocklist hits; otherwise the configured policy
/// decides, `Never` approving silently and everything else asking the
/// user, with the narrowed scope attached either way.
pub open spec fn evaluate_post(config: PolicyConfig, req: EffectRequest, o: PolicyOutcome) -> bool {
    &&& o.request_id@ == req.id@
    &&& if spec_denied_effect(config, req.effect_type) {
        o.decision matches PolicyDecision::Denied { reason, code }
            && reason@ == "effect type denied by policy"@
            && code@ == "policy_blocked"@
    } else if spec_blocklisted(config, req) {
        o.decision matches PolicyDecision::Denied { reason, code }
            && reason@ == "request blocked by policy lists"@
            && code@ == "policy_blocked"@
    } else {
        let pol = spec_policy_for(config.default_policies@, req.effect_type);
        if pol == ConfirmationPolicy::Never {
            o.decision matches PolicyDecision::Approved { approval_type, modified_scope }
                && approval_type == ConfirmationPolicy::Never
                && (modified_scope matches Some(s) && spec_scope_narrowed(config, req, s))
        } else {
            o.decision matches PolicyDecision::RequiresUserConfirmation { policy, modified_scope }
                && policy == pol
                && (modified_scope matches Some(s) && spec_scope_narrowed(config, req, s))
        }
    }
}

/// Two decisions agree: same variant, same policy, same denial texts,
/// same scope contents.
pub open spec fn decision_consistent(d1: PolicyDecision, d2: PolicyDecision) -> bool {
    match (d1, d2) {
        (
            PolicyDecision::Approved { approval_type: a1, modified_scope: s1 },
            PolicyDecision::Approved { approval_type: a2, modified_scope: s2 },
        ) => a1 == a2 && (match (s1, s2) {
            (Some(x1), Some(x2)) => scope_eq(x1, x2),
            (None, None) => true,
            _ => false,
        }),
        (
            PolicyDecision::RequiresUserConfirmation { policy: p1, modified_scope: s1 },
            PolicyDecision::RequiresUserConfirmation { policy: p2, modified_scope: s2 },
        ) => p1 == p2 && (match (s1, s2) {
            (Some(x1), Some(x2)) => scope_eq(x1, x2),
            (None, None) => true,
            _ => false,
        }),
        (
            PolicyDecision::Denied { reason: r1, code: c1 },
            PolicyDecision::Denied { reason: r2, code: c2 },
        ) => r1@ == r2@ && c1@ == c2@,
        _ => false,
    }
}

/// Evaluating a request is a pure function of the configuration and the
/// request: any two outcomes that `evaluate` can return for the same pair
/// carry the same decision and answer the same request.
pub proof fn lemma_evaluate_pure(
    config: PolicyConfig,
    req: EffectRequest,
    o1: PolicyOutcome,
    o2: PolicyOutcome,
)
    requires
        evaluate_post(config, req, o1),
        evaluate_post(config, req, o2),
    ensures
        decision_consistent(o1.decision, o2.decision),
        o1.request_id@ == o2.request_id@,
{
}

impl PolicyEngine {
    /// An engine over the given configuration.
    pub fn new(config: PolicyConfig) -> (r: Self)
        ensures
            r.config == config,
    {
        PolicyEngine { config }
    }

    /// Whether one of the blocklists hits the request.
    #[verifier::loop_isolation(false)]
    fn is_blocklisted(&self, request: &EffectRequest) -> (r: bool)
        ensures
            r == spec_blocklisted(self.config, *request),
    {
        if let Some(command) = &request.payload.command {
            let mut i: usize = 0;
            while i < self.config.blocklists.commands.len()
                invariant
                    0 <= i <= self.config.blocklists.commands@.len(),
                    forall|q: int| 0 <= q < i ==> !spec_starts_with(
                        request.payload.command->Some_0@,
                        #[trigger] self.config.blocklists.commands@[q]@,
                    ),
                decreases self.config.blocklists.commands@.len() - i,
            {
                proof {
                    assert(*command == request.payload.command->Some_0);
                }
                if str_starts_with(command.as_str(), self.config.blocklists.commands[i].as_str()) {
                    proof {
                        assert(spec_starts_with(
                            request.payload.command->Some_0@,
                            self.config.blocklists.commands@[i as int]@,
                        ));
                        assert(spec_command_blocked(self.config, *request));
                    }
                    return true;
                }
                i = i + 1;
            }
        }
        if let Some(url) = &request.payload.url {
            let mut i: usize = 0;
            while i < self.config.blocklists.domains.len()
                invariant
                    0 <= i <= self.config.blocklists.domains@.len(),
                    !spec_command_blocked(self.config, *request),
                    forall|q: int| 0 <= q < i ==> !spec_contains(
                        request.payload.url->Some_0@,
                        #[trigger] self.config.blocklists.domains@[q]@,
                    ),
                decreases self.config.blocklists.domains@.len() - i,
            {
                proof {
                    assert(*url == request.payload.url->Some_0);
                }
                if str_contains(url.as_str(), self.config.blocklists.domains[i].as_str()) {
                    proof {
                        assert(spec_contains(
                            request.payload.url->Some_0@,
                            self.config.blocklists.domains@[i as int]@,
                        ));
                        assert(spec_url_blocked(self.config, *request));
                    }
                    return true;
                }
                i = i + 1;
            }
        }
        if let Some(path) = &request.payload.path {
            let mut i: usize = 0;
            while i < self.config.blocklists.paths.len()
                invariant
                    0 <= i <= self.config.blocklists.paths@.len(),
                    !spec_command_blocked(self.config, *request),
                    !spec_url_blocked(self.config, *request),
                    forall|q: int| 0 <= q < i ==> !spec_starts_with(
                        request.payload.path->Some_0@,
                        #[trigger] self.config.blocklists.paths@[q]@,
                    ),
                decreases self.config.blocklists.paths@.len() - i,
            {
                proof {
                    assert(*path == request.payload.path->Some_0);
                }
                if str_starts_with(path.as_str(), self.config.blocklists.paths[i].as_str()) {
                    proof {
                        assert(spec_starts_with(
                            request.payload.path->Some_0@,
                            self.config.blocklists.paths@[i as int]@,
                        ));
                        assert(spec_path_blocked(self.config, *request));
                    }
                    return true;
                }
                i = i + 1;
            }
        }
        false
    }

    /// Whether the request's effect type is unconditionally denied.
    fn is_denied_effect(&self, t: EffectType) -> (r: bool)
        ensures
            r == spec_denied_effect(self.config, t),
    {
        let mut i: usize = 0;
        while i < self.config.denied_effects.len()
            invariant
                0 <= i <= self.config.denied_effects@.len(),
                forall|q: int| 0 <= q < i ==> self.config.denied_effects@[q] != t,
            decreases self.config.denied_effects@.len() - i,
        {
            if self.config.denied_effects[i] == t {
                return true;
            }
            i = i + 1;
        }
        proof {
            assert(forall|q: int|
                0 <= q < self.config.denied_effects@.len()
                    ==> self.config.denied_effects@[q] != t);
        }
        false
    }

    /// The request's scope with the configured allowlists injected where
    /// the request stated none.
    fn apply_allowlists(&self, request: &EffectRequest) -> (r: Option<EffectScope>)
        ensures
            r matches Some(s) && spec_scope_narrowed(self.config, *request, s),
    {
        let mut scope: EffectScope = match &request.scope {
            Some(sc) => sc.duplicate(),
            None => EffectScope::default(),
        };
        if self.config.allowlists.commands.len() > 0 && scope.command_allowlist.is_none() {
            scope.command_allowlist = Some(clone_string_vec(&self.config.allowlists.commands));
        }
        if self.config.allowlists.domains.len() > 0 && scope.domain_allowlist.is_none() {
            scope.domain_allowlist = Some(clone_string_vec(&self.config.allowlists.domains));
        }
        if self.config.allowlists.paths.len() > 0 && scope.workspace_paths.is_none() {
            scope.workspace_paths = Some(clone_string_vec(&self.config.allowlists.paths));
        }
        Some(scope)
    }

    /// Decide on a request. The decision is a pure function of the
    /// configuration and the request, as `evaluate_post` states; only the
    /// timestamp is read from the clock.
    pub fn evaluate(&self, request: &EffectRequest) -> (o: PolicyOutcome)
        ensures
            evaluate_post(self.config, *request, o),
    {
        let now = now_rfc3339();
        if self.is_denied_effect(request.effect_type) {
            return PolicyOutcome {
                request_id: request.id.clone(),
                timestamp: now,
                decision: PolicyDecision::Denied {
                    reason: "effect type denied by policy".to_owned(),
                    code: "policy_blocked".to_owned(),
                },
            };
        }

        if self.is_blocklisted(request) {
            return PolicyOutcome {
                request_id: request.id.clone(),
                timestamp: now,
                decision: PolicyDecision::Denied {
                    reason: "request blocked by policy lists".to_owned(),
                    code: "policy_blocked".to_owned(),
                },
            };
        }

        let policy = self.config.policy_for(request.effect_type);
        let modified_scope = self.apply_allowlists(request);

        if policy == ConfirmationPolicy::Never {
            PolicyOutcome {
                request_id: request.id.clone(),
                timestamp: now,
                decision: PolicyDecision::Approved {
                    approval_type: policy,
                    modified_scope,
                },
            }
        } else {
            PolicyOutcome {
                request_id: request.id.clone(),
                timestamp: now,
                decision: PolicyDecision::RequiresUserConfirmation {
                    policy,
                    modified_scope,
                },
            }
        }
    }

    /// Shape an outcome into the wire response, marking it approved or
    /// not as the caller decided.
    pub fn to_response(&self, outcome: PolicyOutcome, approved: bool) -> (r: EffectResponse)
        ensures
            r.request_id == outcome.request_id,
            r.timestamp == outcome.timestamp,
            r.approved == approved,
            r.expires_at is None,
            match outcome.decision {
                PolicyDecision::Approved { approval_type, modified_scope } => {
                    r.approval_type == Some(approval_type) && r.modified_scope == modified_scope
                        && r.denial_reason is None && r.denial_code is None
                }
                PolicyDecision::RequiresUserConfirmation { policy, modified_scope } => {
                    r.approval_type == Some(policy) && r.modified_scope == modified_scope
                        && r.denial_reason is None && r.denial_code is None
                }
                PolicyDecision::Denied { reason, code } => {
                    r.denial_reason == Some(reason) && r.denial_code == Some(code)
                        && r.approval_type is None && r.modified_scope is None
                }
            },
    {
        let mut response = EffectResponse {
            request_id: outcome.request_id,
            timestamp: outcome.timestamp,
            approved,
            approval_type: None,
            expires_at: None,
            denial_reason: None,
            denial_code: None,
            modified_scope: None,
        };

        match outcome.decision {
            PolicyDecision::Approved { approval_type, modified_scope } => {
                response.approval_type = Some(approval_type);
                response.modified_scope = modified_scope;
            }
            PolicyDecision::RequiresUserConfirmation { policy, modified_scope } => {
                response.approval_type = Some(policy);
                response.modified_scope = modified_scope;
            }
            PolicyDecision::Denied { reason, code } => {
                response.denial_reason = Some(reason);
                response.denial_code = Some(code);
            }
        }

        response
    }
}

} // verus!
