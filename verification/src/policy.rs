//! The policy gate: effect types, requests and responses, the policy
//! configuration, the engine that decides on requests, and the pending
//! confirmations awaiting the user.

pub mod audit;
pub mod commands;
pub mod engine;
pub mod types;
