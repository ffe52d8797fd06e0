//! The status snapshot handed across task and connection boundaries, and
//! the ephemeral log entries broadcast to attached viewers.

use vstd::prelude::*;

verus! {

/// An immutable point-in-time copy of the service's status, safe to pass
/// across task boundaries. Timestamps are carried as RFC 3339 text.
#[derive(Clone, Debug, PartialEq, Eq)]
pub struct ServiceStatus {
    /// Whether the service is running.
    pub running: bool,
    /// The current cron schedule.
    pub cron: String,
    /// When the last cycle finished, if any.
    pub last_update: Option<String>,
    /// The last cycle's result summary, if any.
    pub last_result: Option<String>,
    /// The last discovered public IP, if any.
    pub current_ip: Option<String>,
    /// How many records are configured.
    pub record_count: usize,
    /// The next scheduled run, if known.
    pub next_run: Option<String>,
}

impl Default for ServiceStatus {
    /// An empty snapshot: not running, nothing recorded.
    fn default() -> (d: Self)
        ensures
            !d.running,
            d.cron@.len() == 0,
            d.last_update is None,
            d.last_result is None,
            d.current_ip is None,
            d.record_count == 0,
            d.next_run is None,
    {
        ServiceStatus {
            running: false,
            cron: String::new(),
            last_update: None,
            last_result: None,
            current_ip: None,
            record_count: 0,
            next_run: None,
        }
    }
}

/// One ephemeral log event; never persisted, dropped silently when no
/// subscriber is listening.
#[derive(Clone, Debug, PartialEq, Eq)]
pub struct LogMessage {
    /// The severity label, e.g. `INFO` or `ERROR`.
    pub level: String,
    /// The log line itself.
    pub message: String,
    /// When the event happened, as RFC 3339 text.
    pub timestamp: String,
}

impl LogMessage {
    /// Packs the three fields of a log event.
    pub fn new(level: String, message: String, timestamp: String) -> (m: LogMessage)
        ensures
            m.level@ == level@,
            m.message@ == message@,
            m.timestamp@ == timestamp@,
    {
        LogMessage { level, message, timestamp }
    }
}

} // verus!
