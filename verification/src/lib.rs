//! The trusted host core of a desktop coding assistant: an untrusted
//! agent subprocess proposes side effects, and this crate decides what
//! may happen. A policy engine evaluates each effect request against the
//! user's configuration, a confirmation broker holds the decisions that
//! await the user, a shadow filesystem stages file changes for review and
//! applies them atomically under a content-hash conflict check, a diff
//! engine computes and replays the patches under review, and a dispatcher
//! routes the agent's commands through all of them, writing one audit
//! record per accepted transition.
//!
//! Everything here is decision logic over plain values. The process
//! spawning, the pipes, the disk and the network live in the embedding
//! application, which feeds observations in and carries the ordered
//! actions out.

pub mod clock;
pub mod diff;
pub mod dispatch;
pub mod gate;
pub mod git;
pub mod hash;
pub mod ids;
pub mod ipc;
pub mod policy;
pub mod process;
pub mod shadow;
pub mod strutil;
pub mod supervisor;
pub mod text;
pub mod window;
