use vstd::prelude::*;

use crate::clock::now_rfc3339;
use super::engine::{PolicyDecision, PolicyOutcome};
use super::types::{request_eq, EffectRequest, EffectResponse};

verus! {

/// One record of the append-only audit stream.
#[derive(Debug, Clone)]
pub struct AuditEvent {
    pub id: String,
    pub timestamp: String,
    pub event_type: String,
    pub request: EffectRequest,
    pub response: Option<EffectResponse>,
    pub note: Option<String>,
}

/// A short label for a decision, used in audit notes.
pub open spec fn spec_decision_label(d: PolicyDecision) -> Seq<char> {
    match d {
        PolicyDecision::Approved { .. } => "approved"@,
        PolicyDecision::RequiresUserConfirmation { .. } => "requires_confirmation"@,
        PolicyDecision::Denied { .. } => "denied"@,
    }
}

/// The label of a decision.
pub fn decision_label(d: &PolicyDecision) -> (r: &'static str)
    ensures
        r@ == spec_decision_label(*d),
{
    match d {
        PolicyDecision::Approved { .. } => "approved",
        PolicyDecision::RequiresUserConfirmation { .. } => "requires_confirmation",
        PolicyDecision::Denied { .. } => "denied",
    }
}

impl AuditEvent {
    /// The audit record of an initial request and the engine's decision.
    pub fn request(request: &EffectRequest, outcome: &PolicyOutcome) -> (r: AuditEvent)
        ensures
            r.id@ == "audit-"@ + request.id@,
            r.event_type@ == "request"@,
            request_eq(r.request, *request),
            r.response is None,
            r.note matches Some(n) && n@ == "Policy decision: "@ + spec_decision_label(
                outcome.decision,
            ),
    {
        let mut id = String::new();
        id.append("audit-");
        id.append(request.id.as_str());
        let mut note = String::new();
        note.append("Policy decision: ");
        note.append(decision_label(&outcome.decision));
        AuditEvent {
            id,
            timestamp: now_rfc3339(),
            event_type: "request".to_owned(),
            request: request.duplicate(),
            response: None,
            note: Some(note),
        }
    }

    /// The audit record of a user confirmation.
    pub fn confirmed(request: &EffectRequest, remember: bool) -> (r: AuditEvent)
        ensures
            r.id@ == "audit-confirm-"@ + request.id@,
            r.event_type@ == "confirmed"@,
            request_eq(r.request, *request),
            r.response is None,
            r.note matches Some(n) && n@ == "User confirmed (remember: "@ + (if remember {
                "true"@
            } else {
                "false"@
            }) + ")"@,
    {
        let mut id = String::new();
        id.append("audit-confirm-");
        id.append(request.id.as_str());
        let mut note = String::new();
        note.append("User confirmed (remember: ");
        note.append(if remember { "true" } else { "false" });
        note.append(")");
        AuditEvent {
            id,
            timestamp: now_rfc3339(),
            event_type: "confirmed".to_owned(),
            request: request.duplicate(),
            response: None,
            note: Some(note),
        }
    }

    /// The audit record of a user denial.
    pub fn denied(request: &EffectRequest, reason: Option<&String>) -> (r: AuditEvent)
        ensures
            r.id@ == "audit-denied-"@ + request.id@,
            r.event_type@ == "denied"@,
            request_eq(r.request, *request),
            r.response is None,
            match reason {
                Some(msg) => r.note matches Some(n) && n@ == msg@,
                None => r.note is None,
            },
    {
        let mut id = String::new();
        id.append("audit-denied-");
        id.append(request.id.as_str());
        AuditEvent {
            id,
            timestamp: now_rfc3339(),
            event_type: "denied".to_owned(),
            request: request.duplicate(),
            response: None,
            note: match reason {
                Some(msg) => Some(msg.clone()),
                None => None,
            },
        }
    }
}

/// An audit sink that appends one record per line to a file; the file
/// writing itself is the embedding application's part.
#[derive(Debug, Clone)]
pub struct FileAuditSink {
    pub path: String,
}

impl FileAuditSink {
    /// A sink writing to the given path.
    pub fn new(path: String) -> (r: Self)
        ensures
            r.path == path,
    {
        FileAuditSink { path }
    }
}

/// An audit sink for development that prints records to the console; the
/// printing itself is the embedding application's part.
#[derive(Debug, Clone)]
pub struct ConsoleAuditSink;

} // verus!
