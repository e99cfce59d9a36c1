//! Managed-service shapes: per-service configuration, status, and the
//! decision of when a starting service counts as timed out. Spawning,
//! health probes and teardown are the embedding application's part.

use vstd::prelude::*;

verus! {

/// Error type for managed-service operations.
#[derive(Debug, Clone)]
pub enum ProcessError {
    /// Spawning the child failed; carries the message.
    SpawnError(String),
    /// The named service is not running or not registered.
    NotRunning(String),
    /// A health probe failed; carries the message.
    HealthCheckFailed(String),
    /// The service did not come up in time; carries the message.
    Timeout(String),
}

/// Per-service configuration.
#[derive(Debug, Clone)]
pub struct ServiceConfig {
    pub name: String,
    pub enabled: bool,
    pub auto_start: bool,
    pub auto_restart: bool,
    pub health_check_url: Option<String>,
    pub health_check_interval_secs: u64,
    pub startup_timeout_secs: u64,
    pub max_restart_attempts: u32,
}

impl Default for ServiceConfig {
    /// A service that starts and restarts by itself, probed every half
    /// minute, with a minute to come up and three restart attempts.
    fn default() -> (r: Self)
        ensures
            r.name@ == Seq::<char>::empty(),
            r.enabled == true,
            r.auto_start == true,
            r.auto_restart == true,
            r.health_check_url is None,
            r.health_check_interval_secs == 30,
            r.startup_timeout_secs == 60,
            r.max_restart_attempts == 3,
    {
        ServiceConfig {
            name: String::new(),
            enabled: true,
            auto_start: true,
            auto_restart: true,
            health_check_url: None,
            health_check_interval_secs: 30,
            startup_timeout_secs: 60,
            max_restart_attempts: 3,
        }
    }
}

/// The lifecycle state of a managed service.
#[derive(Debug, Clone, Copy, PartialEq, Eq, Structural)]
pub enum ServiceStatus {
    Stopped,
    Starting,
    Running,
    Unhealthy,
    Restarting,
    Failed,
}

/// A snapshot of one service for display.
#[derive(Debug, Clone)]
pub struct ServiceInfo {
    pub name: String,
    pub status: ServiceStatus,
    pub pid: Option<u32>,
    pub uptime_secs: Option<u64>,
    pub restart_count: u32,
    pub last_error: Option<String>,
    pub health_check_url: Option<String>,
}

/// Whether a starting service has run out of its startup window.
pub fn startup_timed_out(config: &ServiceConfig, started_at_secs: u64, now_secs: u64) -> (r: bool)
    ensures
        r == (now_secs >= started_at_secs && now_secs - started_at_secs
            > config.startup_timeout_secs),
{
    now_secs >= started_at_secs && now_secs - started_at_secs > config.startup_timeout_secs
}

} // verus!
