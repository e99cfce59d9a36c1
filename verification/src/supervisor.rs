//! Sidecar supervision: the line-protocol command builders, the
//! classification of inbound messages, the correlation of responses with
//! waiting senders, and the watchdog's restart policy.
//!
//! The child process itself, its pipes and its threads are the embedding
//! application's part; every decision they need is taken here.

use vstd::prelude::*;

use crate::clock::now_rfc3339_millis;
use crate::ids::new_token;
use crate::strutil::{spec_ends_with, str_ends_with, str_eq};

verus! {

/// Error type for sidecar operations.
#[derive(Debug, Clone)]
pub enum SidecarError {
    /// Spawning the child failed; carries the message.
    SpawnError(String),
    /// The sidecar is not running.
    NotRunning,
    /// Sending a command failed; carries the message.
    SendError(String),
    /// A command could not be serialized; carries the message.
    SerializeError(String),
}

// ============================================================================
// Line-protocol commands
// ============================================================================

/// The context a task starts in.
#[derive(Debug, Clone)]
pub struct TaskContext {
    pub workspace_path: String,
    pub active_file: Option<String>,
    pub selected_text: Option<String>,
    pub open_files: Option<Vec<String>>,
}

/// Per-task configuration.
#[derive(Debug, Clone)]
pub struct TaskConfig {
    pub model_id: Option<String>,
    pub max_tokens: Option<u32>,
    pub max_history_messages: Option<u32>,
    pub enabled_claude_skills: Option<Vec<String>>,
    pub enabled_toolpacks: Option<Vec<String>>,
    pub enabled_skills: Option<Vec<String>>,
}

/// Payload of a start-task command.
#[derive(Debug, Clone)]
pub struct StartTaskPayload {
    pub task_id: String,
    pub title: String,
    pub user_query: String,
    pub context: TaskContext,
    pub config: Option<TaskConfig>,
}

/// Payload of a message to a running task.
#[derive(Debug, Clone)]
pub struct SendTaskMessagePayload {
    pub task_id: String,
    pub content: String,
    pub config: Option<TaskConfig>,
}

/// Payload of a task cancellation.
#[derive(Debug, Clone)]
pub struct CancelTaskPayload {
    pub task_id: String,
    pub reason: Option<String>,
}

/// Payload of a history clear.
#[derive(Debug, Clone)]
pub struct ClearTaskHistoryPayload {
    pub task_id: String,
}

/// A host-to-agent command on the line protocol, with its correlation id
/// and timestamp.
#[derive(Debug, Clone)]
pub enum IpcCommand {
    StartTask { id: String, timestamp: String, payload: StartTaskPayload },
    CancelTask { id: String, timestamp: String, payload: CancelTaskPayload },
    ClearTaskHistory { id: String, timestamp: String, payload: ClearTaskHistoryPayload },
    SendTaskMessage { id: String, timestamp: String, payload: SendTaskMessagePayload },
}

impl IpcCommand {
    /// A start-task command carrying the given task.
    pub fn start_task(
        task_id: String,
        title: String,
        user_query: String,
        context: TaskContext,
        config: Option<TaskConfig>,
    ) -> (r: Self)
        ensures
            r matches IpcCommand::StartTask { id, timestamp, payload } && payload.task_id
                == task_id && payload.title == title && payload.user_query == user_query
                && payload.context == context && payload.config == config,
    {
        IpcCommand::StartTask {
            id: new_token(),
            timestamp: now_rfc3339_millis(),
            payload: StartTaskPayload { task_id, title, user_query, context, config },
        }
    }

    /// A cancellation of the given task.
    pub fn cancel_task(task_id: String, reason: Option<String>) -> (r: Self)
        ensures
            r matches IpcCommand::CancelTask { id, timestamp, payload } && payload.task_id
                == task_id && payload.reason == reason,
    {
        IpcCommand::CancelTask {
            id: new_token(),
            timestamp: now_rfc3339_millis(),
            payload: CancelTaskPayload { task_id, reason },
        }
    }

    /// A history clear for the given task.
    pub fn clear_task_history(task_id: String) -> (r: Self)
        ensures
            r matches IpcCommand::ClearTaskHistory { id, timestamp, payload } && payload.task_id
                == task_id,
    {
        IpcCommand::ClearTaskHistory {
            id: new_token(),
            timestamp: now_rfc3339_millis(),
            payload: ClearTaskHistoryPayload { task_id },
        }
    }

    /// A message to the given task.
    pub fn send_task_message(task_id: String, content: String, config: Option<TaskConfig>) -> (r:
        Self)
        ensures
            r matches IpcCommand::SendTaskMessage { id, timestamp, payload } && payload.task_id
                == task_id && payload.content == content && payload.config == config,
    {
        IpcCommand::SendTaskMessage {
            id: new_token(),
            timestamp: now_rfc3339_millis(),
            payload: SendTaskMessagePayload { task_id, content, config },
        }
    }
}

// ============================================================================
// Message classification
// ============================================================================

/// What an inbound sidecar line is: an opaque task event, a response to a
/// command the host sent, or a command the agent originates.
#[derive(Debug, Clone, Copy, PartialEq, Eq, Structural)]
pub enum SidecarMessageKind {
    TaskEvent,
    IpcResponse,
    IpcCommand,
}

/// Whether the type tag names an agent-originated command.
pub open spec fn spec_is_agent_command(t: Seq<char>) -> bool {
    ||| t == "request_effect"@
    ||| t == "propose_patch"@
    ||| t == "apply_patch"@
    ||| t == "reject_patch"@
    ||| t == "register_agent_identity"@
    ||| t == "record_agent_delegation"@
    ||| t == "report_mcp_gateway_decision"@
    ||| t == "report_runtime_security_alert"@
}

/// The classification of a message by its type tag: a `_response` suffix
/// marks a response, the fixed set of agent commands marks a command, and
/// everything else is an opaque task event.
pub open spec fn spec_classify(t: Seq<char>) -> SidecarMessageKind {
    if spec_ends_with(t, "_response"@) {
        SidecarMessageKind::IpcResponse
    } else if spec_is_agent_command(t) {
        SidecarMessageKind::IpcCommand
    } else {
        SidecarMessageKind::TaskEvent
    }
}

/// Classify an inbound message by its type tag.
pub fn classify_sidecar_message(msg_type: &str) -> (r: SidecarMessageKind)
    ensures
        r == spec_classify(msg_type@),
{
    if str_ends_with(msg_type, "_response") {
        return SidecarMessageKind::IpcResponse;
    }
    if str_eq(msg_type, "request_effect") || str_eq(msg_type, "propose_patch")
        || str_eq(msg_type, "apply_patch") || str_eq(msg_type, "reject_patch")
        || str_eq(msg_type, "register_agent_identity")
        || str_eq(msg_type, "record_agent_delegation")
        || str_eq(msg_type, "report_mcp_gateway_decision")
        || str_eq(msg_type, "report_runtime_security_alert") {
        return SidecarMessageKind::IpcCommand;
    }
    SidecarMessageKind::TaskEvent
}

// ============================================================================
// Response correlation
// ============================================================================

/// The command ids whose senders are waiting for a response. Each
/// response is delivered at most once: the first inbound line with a
/// matching command id routes to the waiter and removes it, any further
/// one is discarded.
pub struct PendingResponses {
    pub waiters: Vec<String>,
}

/// The waiting ids are pairwise distinct.
pub open spec fn waiters_unique(v: Seq<String>) -> bool {
    forall|p: int, q: int| 0 <= p < q < v.len() ==> (#[trigger] v[p])@ != (#[trigger] v[q])@
}

/// Whether an id is waiting.
pub open spec fn waiter_registered(v: Seq<String>, id: Seq<char>) -> bool {
    exists|k: int| 0 <= k < v.len() && (#[trigger] v[k])@ == id
}

impl PendingResponses {
    /// No waiter yet.
    pub fn new() -> (r: Self)
        ensures
            r.waiters@ == Seq::<String>::empty(),
            waiters_unique(r.waiters@),
    {
        PendingResponses { waiters: Vec::new() }
    }

    /// Register a command id before sending, so the response can be
    /// routed back; registering an id again keeps one waiter.
    #[verifier::loop_isolation(false)]
    pub fn register(&mut self, command_id: String)
        requires
            waiters_unique(old(self).waiters@),
        ensures
            waiters_unique(final(self).waiters@),
            waiter_registered(final(self).waiters@, command_id@),
    {
        let ghost oldv = self.waiters@;
        let mut i: usize = 0;
        while i < self.waiters.len()
            invariant
                oldv == self.waiters@,
                0 <= i <= self.waiters@.len(),
                forall|q: int| 0 <= q < i ==> (#[trigger] self.waiters@[q])@ != command_id@,
            decreases self.waiters@.len() - i,
        {
            if str_eq(self.waiters[i].as_str(), command_id.as_str()) {
                return ;
            }
            i = i + 1;
        }
        self.waiters.push(command_id);
        proof {
            assert(self.waiters@.last()@ == command_id@);
            assert forall|p: int, q: int|
                0 <= p < q < self.waiters@.len()
                    implies (#[trigger] self.waiters@[p])@ != (#[trigger] self.waiters@[q])@ by {
                if q < oldv.len() {
                    assert(oldv[p]@ != oldv[q]@);
                } else {
                    assert(self.waiters@[p] == oldv[p]);
                }
            }
        }
    }

    /// Route an inbound response: `true` exactly when a waiter was
    /// registered for the id; the waiter is removed, so a second response
    /// with the same id is discarded.
    pub fn deliver(&mut self, command_id: &str) -> (r: bool)
        requires
            waiters_unique(old(self).waiters@),
        ensures
            waiters_unique(final(self).waiters@),
            r == waiter_registered(old(self).waiters@, command_id@),
            r ==> !waiter_registered(final(self).waiters@, command_id@),
            !r ==> final(self).waiters@ == old(self).waiters@,
    {
        let mut i: usize = 0;
        while i < self.waiters.len()
            invariant
                waiters_unique(self.waiters@),
                self.waiters@ == old(self).waiters@,
                0 <= i <= self.waiters@.len(),
                forall|q: int| 0 <= q < i ==> (#[trigger] self.waiters@[q])@ != command_id@,
            decreases self.waiters@.len() - i,
        {
            if str_eq(self.waiters[i].as_str(), command_id) {
                let ghost oldv = self.waiters@;
                self.waiters.remove(i);
                proof {
                    lemma_waiter_removed(oldv, i as int);
                }
                return true;
            }
            i = i + 1;
        }
        false
    }
}

/// Removing the waiter at `k` keeps the rest unique and removes its id
/// entirely: a second response with the same id finds no waiter.
pub proof fn lemma_waiter_removed(v: Seq<String>, k: int)
    requires
        waiters_unique(v),
        0 <= k < v.len(),
    ensures
        waiters_unique(v.remove(k)),
        !waiter_registered(v.remove(k), v[k]@),
{
    let w = v.remove(k);
    assert forall|p: int, q: int|
        0 <= p < q < w.len() implies (#[trigger] w[p])@ != (#[trigger] w[q])@ by {
        let p0 = if p < k { p } else { p + 1 };
        let q0 = if q < k { q } else { q + 1 };
        assert(w[p] == v[p0]);
        assert(w[q] == v[q0]);
    }
    assert forall|m: int| 0 <= m < w.len() implies (#[trigger] w[m])@ != v[k]@ by {
        let m0 = if m < k { m } else { m + 1 };
        assert(w[m] == v[m0]);
    }
}

// ============================================================================
// Watchdog
// ============================================================================

/// The watchdog's memory: when it restarted the sidecar, and until when
/// it pauses after giving up.
pub struct WatchdogState {
    pub restart_times: Vec<u64>,
    pub paused_until: u64,
}

/// What the watchdog does on one tick.
#[derive(Debug, Clone, Copy, PartialEq, Eq, Structural)]
pub enum WatchdogAction {
    /// The sidecar runs, or the watchdog pauses: nothing to do.
    Nothing,
    /// Restart, after waiting the backoff.
    Restart { backoff_secs: u64 },
    /// Too many restarts in the window: report failure and pause.
    GiveUp { pause_until: u64 },
}

/// The restarts that fall in the rolling window before `now`.
pub open spec fn recent_restarts(ts: Seq<u64>, now: u64) -> int
    decreases ts.len(),
{
    if ts.len() == 0 {
        0
    } else {
        (if ts[0] + 120 > now {
            1int
        } else {
            0int
        }) + recent_restarts(ts.skip(1), now)
    }
}

/// The exponential backoff before the n-th restart of a window: two,
/// four, then eight seconds.
pub open spec fn spec_backoff(attempts: int) -> u64 {
    if attempts <= 0 {
        2
    } else if attempts == 1 {
        4
    } else {
        8
    }
}

impl WatchdogState {
    /// A fresh watchdog with no restart on record.
    pub fn new() -> (r: Self)
        ensures
            r.restart_times@ == Seq::<u64>::empty(),
            r.paused_until == 0,
    {
        WatchdogState { restart_times: Vec::new(), paused_until: 0 }
    }

    /// One watchdog tick: nothing while the sidecar runs or the watchdog
    /// pauses; otherwise restart with exponential backoff, up to three
    /// restarts within the rolling two-minute window, then give up and
    /// pause for a minute before starting over.
    #[verifier::loop_isolation(false)]
    pub fn tick(&mut self, now: u64, running: bool) -> (r: WatchdogAction)
        requires
            now < 0xffff_ffff_ffff_0000u64,
        ensures
            running ==> r == WatchdogAction::Nothing && *final(self) == *old(self),
            !running && now < old(self).paused_until ==> r == WatchdogAction::Nothing
                && *final(self) == *old(self),
            !running && now >= old(self).paused_until && recent_restarts(
                old(self).restart_times@, now) >= 3 ==> {
                &&& r == (WatchdogAction::GiveUp { pause_until: (now + 60) as u64 })
                &&& final(self).paused_until == now + 60
                &&& final(self).restart_times == old(self).restart_times
            },
            !running && now >= old(self).paused_until && recent_restarts(
                old(self).restart_times@, now) < 3 ==> {
                &&& r == (WatchdogAction::Restart {
                    backoff_secs: spec_backoff(recent_restarts(old(self).restart_times@, now)),
                })
                &&& final(self).restart_times@ == old(self).restart_times@.push(now)
                &&& final(self).paused_until == old(self).paused_until
            },
    {
        if running {
            return WatchdogAction::Nothing;
        }
        if now < self.paused_until {
            return WatchdogAction::Nothing;
        }
        let ghost ts = self.restart_times@;
        let mut recent: u64 = 0;
        let mut i: usize = 0;
        proof {
            assert(ts.skip(0) =~= ts);
        }
        while i < self.restart_times.len()
            invariant
                ts == self.restart_times@,
                0 <= i <= ts.len(),
                recent as int + recent_restarts(ts.skip(i as int), now) == recent_restarts(ts, now),
                recent as int <= i,
            decreases ts.len() - i,
        {
            proof {
                assert(ts.skip(i as int)[0] == ts[i as int]);
                assert(ts.skip(i as int).skip(1) =~= ts.skip(i as int + 1));
            }
            if self.restart_times[i] > 0xffff_ffff_ffff_ff00u64 || self.restart_times[i] + 120
                > now {
                proof {
                    if ts[i as int] > 0xffff_ffff_ffff_ff00u64 {
                        assert(ts[i as int] + 120 > now);
                    }
                }
                recent = recent + 1;
            }
            i = i + 1;
        }
        proof {
            assert(ts.skip(ts.len() as int) =~= Seq::<u64>::empty());
        }
        if recent >= 3 {
            self.paused_until = now + 60;
            WatchdogAction::GiveUp { pause_until: now + 60 }
        } else {
            let backoff: u64 = if recent == 0 {
                2
            } else if recent == 1 {
                4
            } else {
                8
            };
            self.restart_times.push(now);
            WatchdogAction::Restart { backoff_secs: backoff }
        }
    }
}

} // verus!
