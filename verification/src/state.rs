//! The service's shared mutable state and its write groups.
//!
//! The surrounding application holds one `ServiceState` behind a
//! read/write lock and calls these accessor operations under it; each
//! operation is one atomic write group, and its contract pins every field
//! it touches to the same inputs, so a snapshot can never mix fields of
//! two different writers of one group.

use vstd::prelude::*;
use crate::addr::{IpAddress, ip_string, ip_text};
use crate::clock::{format_rfc3339, rfc3339_of, ts_in_range};
use crate::config::Config;
use crate::cycle::CycleSummary;
use crate::status::ServiceStatus;
use crate::text::{decimal_text, push_decimal, push_str_chars, string_from_chars};

verus! {

/// The state owned by the service process: the current configuration and
/// the last-result status fields.
#[derive(Debug)]
pub struct ServiceState {
    /// The current configuration; replaced only by a successful reload.
    pub config: Config,
    /// When the last cycle finished, as UNIX seconds.
    pub last_update: Option<i64>,
    /// The last cycle's result summary.
    pub last_result: Option<String>,
    /// The last IP that discovery returned during a cycle.
    pub current_ip: Option<IpAddress>,
    /// The next scheduled run, as UNIX seconds, if known.
    pub next_run: Option<i64>,
    /// True from startup until shutdown begins, then permanently false.
    pub running: bool,
}

/// Every recorded timestamp is in the renderable range.
pub open spec fn state_wf(s: ServiceState) -> bool {
    &&& match s.last_update {
        Some(t) => ts_in_range(t),
        None => true,
    }
    &&& match s.next_run {
        Some(t) => ts_in_range(t),
        None => true,
    }
}

/// The last-result text: `Success` when nothing failed, else the failure
/// count followed by ` failed`.
pub open spec fn result_summary_text(failures: nat) -> Seq<char> {
    if failures == 0 {
        "Success"@
    } else {
        decimal_text(failures) + " failed"@
    }
}

/// The status fields one cycle's completion writes as a group.
pub struct CycleWriteView {
    pub last_update: Option<i64>,
    pub last_result: Option<Seq<char>>,
    pub current_ip: Option<IpAddress>,
}

/// The status-field group a state currently shows.
pub open spec fn state_write_view(s: ServiceState) -> CycleWriteView {
    CycleWriteView {
        last_update: s.last_update,
        last_result: match s.last_result {
            Some(m) => Some(m@),
            None => None,
        },
        current_ip: s.current_ip,
    }
}

/// How one cycle's completion rewrites the status-field group: timestamp
/// and result summary come from this cycle, and the current IP is
/// replaced only when the cycle discovered one.
pub open spec fn write_group(prior: CycleWriteView, now: i64, summary: CycleSummary) -> CycleWriteView {
    CycleWriteView {
        last_update: Some(now),
        last_result: Some(result_summary_text(summary.failure_count as nat)),
        current_ip: match summary.last_discovered_ip {
            Some(ip) => Some(ip),
            None => prior.current_ip,
        },
    }
}

/// How a snapshot reflects a state: every field is a plain copy or the
/// canonical text of the corresponding state field.
pub open spec fn status_matches(s: ServiceState, st: ServiceStatus) -> bool {
    &&& st.running == s.running
    &&& st.cron@ == s.config.service.cron@
    &&& match (s.last_update, st.last_update) {
        (Some(t), Some(x)) => x@ == rfc3339_of(t),
        (None, None) => true,
        _ => false,
    }
    &&& match (s.last_result, st.last_result) {
        (Some(a), Some(b)) => b@ == a@,
        (None, None) => true,
        _ => false,
    }
    &&& match (s.current_ip, st.current_ip) {
        (Some(ip), Some(x)) => x@ == ip_text(ip),
        (None, None) => true,
        _ => false,
    }
    &&& st.record_count == s.config.records@.len()
    &&& match (s.next_run, st.next_run) {
        (Some(t), Some(x)) => x@ == rfc3339_of(t),
        (None, None) => true,
        _ => false,
    }
}

impl ServiceState {
    /// The state at startup: the loaded configuration, nothing recorded,
    /// and the running flag set.
    pub fn new(config: Config) -> (s: ServiceState)
        ensures
            s.config == config,
            s.last_update is None,
            s.last_result is None,
            s.current_ip is None,
            s.next_run is None,
            s.running,
            state_wf(s),
    {
        ServiceState {
            config,
            last_update: None,
            last_result: None,
            current_ip: None,
            next_run: None,
            running: true,
        }
    }

    /// Takes an immutable snapshot of the current status.
    pub fn to_status(&self) -> (st: ServiceStatus)
        requires
            state_wf(*self),
        ensures
            status_matches(*self, st),
    {
        ServiceStatus {
            running: self.running,
            cron: self.config.service.cron.clone(),
            last_update: match self.last_update {
                Some(t) => Some(format_rfc3339(t)),
                None => None,
            },
            last_result: match &self.last_result {
                Some(m) => Some(m.clone()),
                None => None,
            },
            current_ip: match &self.current_ip {
                Some(ip) => Some(ip_string(ip)),
                None => None,
            },
            record_count: self.config.records.len(),
            next_run: match self.next_run {
                Some(t) => Some(format_rfc3339(t)),
                None => None,
            },
        }
    }

    /// Replaces the configuration; used only on a successful reload.
    pub fn apply_config(&mut self, new_config: Config)
        ensures
            final(self).config == new_config,
            final(self).last_update == old(self).last_update,
            final(self).last_result == old(self).last_result,
            final(self).current_ip == old(self).current_ip,
            final(self).next_run == old(self).next_run,
            final(self).running == old(self).running,
    {
        self.config = new_config;
    }

    /// Writes one cycle's completion as a single group: the timestamp,
    /// the result summary, and the discovered IP if the cycle found one.
    pub fn record_cycle_outcome(&mut self, now: i64, summary: &CycleSummary)
        requires
            ts_in_range(now),
        ensures
            state_write_view(*final(self)) == write_group(
                state_write_view(*old(self)),
                now,
                *summary,
            ),
            final(self).config == old(self).config,
            final(self).next_run == old(self).next_run,
            final(self).running == old(self).running,
            state_wf(*old(self)) ==> state_wf(*final(self)),
    {
        self.last_update = Some(now);
        let mut out: Vec<char> = Vec::new();
        if summary.failure_count > 0 {
            push_decimal(&mut out, summary.failure_count as u64);
            push_str_chars(&mut out, " failed");
        } else {
            push_str_chars(&mut out, "Success");
        }
        proof {
            assert(out@ =~= result_summary_text(summary.failure_count as nat));
        }
        self.last_result = Some(string_from_chars(&out));
        if let Some(ip) = &summary.last_discovered_ip {
            self.current_ip = Some(*ip);
        }
    }

    /// Marks the service as no longer running; every other field is kept.
    pub fn mark_stopped(&mut self)
        ensures
            !final(self).running,
            final(self).config == old(self).config,
            final(self).last_update == old(self).last_update,
            final(self).last_result == old(self).last_result,
            final(self).current_ip == old(self).current_ip,
            final(self).next_run == old(self).next_run,
    {
        self.running = false;
    }
}

/// Builds the last-result text for a failure count.
pub fn result_summary(failure_count: usize) -> (s: String)
    ensures
        s@ == result_summary_text(failure_count as nat),
{
    let mut out: Vec<char> = Vec::new();
    if failure_count > 0 {
        push_decimal(&mut out, failure_count as u64);
        push_str_chars(&mut out, " failed");
    } else {
        push_str_chars(&mut out, "Success");
    }
    proof {
        assert(out@ =~= result_summary_text(failure_count as nat));
    }
    string_from_chars(&out)
}

/// Status writes never tear: when two cycles finish in either order, the
/// final group's timestamp and result summary both come from the later
/// writer, and its IP too whenever the later cycle discovered one — never
/// the timestamp of one cycle beside the result text of the other.
pub proof fn lemma_write_groups_do_not_tear(
    v0: CycleWriteView,
    now1: i64,
    s1: CycleSummary,
    now2: i64,
    s2: CycleSummary,
)
    ensures
        ({
            let v2 = write_group(write_group(v0, now1, s1), now2, s2);
            &&& v2.last_update == Some(now2)
            &&& v2.last_result == Some(result_summary_text(s2.failure_count as nat))
            &&& (s2.last_discovered_ip is Some ==> v2.current_ip == s2.last_discovered_ip)
            &&& (s2.last_discovered_ip is None && s1.last_discovered_ip is Some
                ==> v2.current_ip == s1.last_discovered_ip)
            &&& (s2.last_discovered_ip is None && s1.last_discovered_ip is None
                ==> v2.current_ip == v0.current_ip)
        }),
{
}

} // verus!
