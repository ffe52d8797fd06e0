//! One reconciliation pass over the configured records.
//!
//! The resolver and the DNS updater are external collaborators; the
//! surrounding application performs their calls and hands each record's
//! outcome back as a plain value. This module owns every decision: which
//! IP to use, how each outcome is counted and described, and what the
//! whole cycle amounts to.

use vstd::prelude::*;
use crate::addr::{IpAddress, ip_text, push_ip_text};
use crate::config::{RecordConfig, RecordType, Settings};
use crate::text::{decimal_text, push_decimal, push_str_chars, string_from_chars};

verus! {

/// Outcome of reconciling one record with the provider.
#[derive(Clone, Copy, Debug, PartialEq, Eq)]
pub enum UpdateResult {
    /// The record did not exist and was created.
    Created,
    /// The record existed with another IP and was rewritten.
    Updated { old_ip: Option<IpAddress>, new_ip: IpAddress },
    /// The record already held the desired IP.
    Unchanged,
}

/// What happened to one record during a cycle. `discovered` is true when
/// the IP came from discovery rather than from a configured forced IP.
#[derive(Clone, Debug, PartialEq, Eq)]
pub enum RecordOutcome {
    /// The target IP could not be resolved; the record was skipped.
    ResolveFailed { message: String },
    /// The IP was resolved but the provider update failed.
    ReconcileFailed { ip: IpAddress, discovered: bool, message: String },
    /// The record was reconciled.
    Reconciled { ip: IpAddress, discovered: bool, result: UpdateResult },
}

/// Tally of one whole cycle.
#[derive(Clone, Copy, Debug, PartialEq, Eq)]
pub struct CycleSummary {
    /// Records whose reconciliation succeeded.
    pub success_count: usize,
    /// Records skipped or failed, at resolution or at the provider.
    pub failure_count: usize,
    /// The last IP that discovery returned during the cycle, if any.
    pub last_discovered_ip: Option<IpAddress>,
}

/// An outcome counts as a success exactly when the record was reconciled.
pub open spec fn outcome_is_success(o: RecordOutcome) -> bool {
    o is Reconciled
}

/// The discovered IP an outcome contributes to the cycle's last-IP field:
/// a forced IP contributes nothing, and neither does a resolution failure.
pub open spec fn outcome_discovered_ip(o: RecordOutcome) -> Option<IpAddress> {
    match o {
        RecordOutcome::ResolveFailed { .. } => None,
        RecordOutcome::ReconcileFailed { ip, discovered, .. } => if discovered {
            Some(ip)
        } else {
            None
        },
        RecordOutcome::Reconciled { ip, discovered, .. } => if discovered {
            Some(ip)
        } else {
            None
        },
    }
}

/// How many outcomes in `s` are successes.
pub open spec fn cycle_successes(s: Seq<RecordOutcome>) -> nat
    decreases s.len(),
{
    if s.len() == 0 {
        0
    } else {
        cycle_successes(s.drop_last()) + if outcome_is_success(s.last()) {
            1nat
        } else {
            0nat
        }
    }
}

/// How many outcomes in `s` are failures.
pub open spec fn cycle_failures(s: Seq<RecordOutcome>) -> nat
    decreases s.len(),
{
    if s.len() == 0 {
        0
    } else {
        cycle_failures(s.drop_last()) + if outcome_is_success(s.last()) {
            0nat
        } else {
            1nat
        }
    }
}

/// The last discovered IP over `s`, falling back to `prior`.
pub open spec fn cycle_last_ip(s: Seq<RecordOutcome>, prior: Option<IpAddress>) -> Option<
    IpAddress,
>
    decreases s.len(),
{
    if s.len() == 0 {
        prior
    } else {
        match outcome_discovered_ip(s.last()) {
            Some(ip) => Some(ip),
            None => cycle_last_ip(s.drop_last(), prior),
        }
    }
}

/// Every record is counted exactly once: over any outcomes, the successes
/// and the failures add up to the number of records processed.
pub proof fn lemma_cycle_counts(s: Seq<RecordOutcome>)
    ensures
        cycle_successes(s) + cycle_failures(s) == s.len(),
    decreases s.len(),
{
    if s.len() > 0 {
        lemma_cycle_counts(s.drop_last());
    }
}

/// Where the target IP for a record comes from.
#[derive(Clone, Copy, Debug, PartialEq, Eq)]
pub enum ResolvePlan {
    /// Use the configured forced IP; discovery is skipped.
    UseForced { ip: IpAddress },
    /// Ask the resolver collaborator for the record's address family.
    Discover,
}

/// A configured forced IP overrides discovery; otherwise the resolver
/// collaborator is consulted.
pub fn resolve_plan(settings: &Settings) -> (p: ResolvePlan)
    ensures
        match settings.force_ip {
            Some(ip) => p == (ResolvePlan::UseForced { ip }),
            None => p == ResolvePlan::Discover,
        },
{
    match &settings.force_ip {
        Some(ip) => ResolvePlan::UseForced { ip: *ip },
        None => ResolvePlan::Discover,
    }
}

/// The log line announcing that a record is being processed.
pub open spec fn processing_text(r: RecordConfig) -> Seq<char> {
    "Processing "@ + crate::config::record_type_text(r.record_type) + " record: "@ + r.name@
}

/// The log line for a forced IP.
pub open spec fn forced_ip_text(ip: IpAddress) -> Seq<char> {
    "Using forced IP: "@ + ip_text(ip)
}

/// The message recorded when resolution fails for a record.
pub open spec fn resolve_failed_text(name: Seq<char>, err: Seq<char>) -> Seq<char> {
    "Failed to get public IP for "@ + name + ": "@ + err
}

/// The message recorded when the provider update fails for a record.
pub open spec fn reconcile_failed_text(name: Seq<char>, err: Seq<char>) -> Seq<char> {
    "Failed to update "@ + name + ": "@ + err
}

/// The log line for a reconciled record, by result.
pub open spec fn reconciled_text(name: Seq<char>, ip: IpAddress, result: UpdateResult) -> Seq<
    char,
> {
    match result {
        UpdateResult::Created => "Created new record: "@ + name + " -> "@ + ip_text(ip),
        UpdateResult::Updated { old_ip, new_ip } => "Updated record: "@ + name + " ("@ + (match old_ip {
            Some(o) => ip_text(o),
            None => "unknown"@,
        }) + " -> "@ + ip_text(new_ip) + ")"@,
        UpdateResult::Unchanged => "Record unchanged: "@ + name + " already points to "@ + ip_text(
            ip,
        ),
    }
}

/// The message an outcome carries or earns in the cycle log.
pub open spec fn outcome_line_text(r: RecordConfig, o: RecordOutcome) -> Seq<char> {
    match o {
        RecordOutcome::ResolveFailed { message } => message@,
        RecordOutcome::ReconcileFailed { message, .. } => message@,
        RecordOutcome::Reconciled { ip, result, .. } => reconciled_text(r.name@, ip, result),
    }
}

/// The summary line closing a cycle's log.
pub open spec fn cycle_summary_text(successes: nat, failures: nat) -> Seq<char> {
    "Update cycle completed: "@ + decimal_text(successes) + " successful, "@ + decimal_text(
        failures,
    ) + " failed"@
}

/// Builds the log line announcing that a record is being processed.
pub fn processing_message(r: &RecordConfig) -> (s: String)
    ensures
        s@ == processing_text(*r),
{
    let mut out: Vec<char> = Vec::new();
    push_str_chars(&mut out, "Processing ");
    match r.record_type {
        RecordType::A => push_str_chars(&mut out, "A"),
        RecordType::AAAA => push_str_chars(&mut out, "AAAA"),
    }
    push_str_chars(&mut out, " record: ");
    push_str_chars(&mut out, r.name.as_str());
    proof {
        assert(out@ =~= processing_text(*r));
    }
    string_from_chars(&out)
}

/// Builds the log line for a forced IP.
pub fn forced_ip_message(ip: &IpAddress) -> (s: String)
    ensures
        s@ == forced_ip_text(*ip),
{
    let mut out: Vec<char> = Vec::new();
    push_str_chars(&mut out, "Using forced IP: ");
    push_ip_text(&mut out, ip);
    proof {
        assert(out@ =~= forced_ip_text(*ip));
    }
    string_from_chars(&out)
}

/// The outcome of a record whose resolution failed, with its message.
pub fn resolve_failure(r: &RecordConfig, err: &str) -> (o: RecordOutcome)
    ensures
        o matches RecordOutcome::ResolveFailed { message } && message@ == resolve_failed_text(
            r.name@,
            err@,
        ),
{
    let mut out: Vec<char> = Vec::new();
    push_str_chars(&mut out, "Failed to get public IP for ");
    push_str_chars(&mut out, r.name.as_str());
    push_str_chars(&mut out, ": ");
    push_str_chars(&mut out, err);
    proof {
        assert(out@ =~= resolve_failed_text(r.name@, err@));
    }
    RecordOutcome::ResolveFailed { message: string_from_chars(&out) }
}

/// The outcome of a record whose provider update failed, with its message.
pub fn reconcile_failure(r: &RecordConfig, ip: IpAddress, discovered: bool, err: &str) -> (o:
    RecordOutcome)
    ensures
        o matches RecordOutcome::ReconcileFailed {
            ip: oip,
            discovered: od,
            message,
        } && oip == ip && od == discovered && message@ == reconcile_failed_text(r.name@, err@),
{
    let mut out: Vec<char> = Vec::new();
    push_str_chars(&mut out, "Failed to update ");
    push_str_chars(&mut out, r.name.as_str());
    push_str_chars(&mut out, ": ");
    push_str_chars(&mut out, err);
    proof {
        assert(out@ =~= reconcile_failed_text(r.name@, err@));
    }
    RecordOutcome::ReconcileFailed { ip, discovered, message: string_from_chars(&out) }
}

/// The log line a record's outcome earns, and whether it is an error.
pub fn outcome_log_line(r: &RecordConfig, o: &RecordOutcome) -> (res: (bool, String))
    ensures
        res.0 == !outcome_is_success(*o),
        res.1@ == outcome_line_text(*r, *o),
{
    match o {
        RecordOutcome::ResolveFailed { message } => (true, message.clone()),
        RecordOutcome::ReconcileFailed { message, .. } => (true, message.clone()),
        RecordOutcome::Reconciled { ip, result, .. } => {
            let mut out: Vec<char> = Vec::new();
            match result {
                UpdateResult::Created => {
                    push_str_chars(&mut out, "Created new record: ");
                    push_str_chars(&mut out, r.name.as_str());
                    push_str_chars(&mut out, " -> ");
                    push_ip_text(&mut out, ip);
                },
                UpdateResult::Updated { old_ip, new_ip } => {
                    push_str_chars(&mut out, "Updated record: ");
                    push_str_chars(&mut out, r.name.as_str());
                    push_str_chars(&mut out, " (");
                    match old_ip {
                        Some(oip) => push_ip_text(&mut out, oip),
                        None => push_str_chars(&mut out, "unknown"),
                    }
                    push_str_chars(&mut out, " -> ");
                    push_ip_text(&mut out, new_ip);
                    push_str_chars(&mut out, ")");
                },
                UpdateResult::Unchanged => {
                    push_str_chars(&mut out, "Record unchanged: ");
                    push_str_chars(&mut out, r.name.as_str());
                    push_str_chars(&mut out, " already points to ");
                    push_ip_text(&mut out, ip);
                },
            }
            proof {
                assert(out@ =~= outcome_line_text(*r, *o));
            }
            (false, string_from_chars(&out))
        },
    }
}

/// Tallies a whole cycle from its record outcomes, in order.
pub fn run_cycle(outcomes: &Vec<RecordOutcome>) -> (s: CycleSummary)
    ensures
        s.success_count == cycle_successes(outcomes@),
        s.failure_count == cycle_failures(outcomes@),
        s.success_count + s.failure_count == outcomes@.len(),
        s.last_discovered_ip == cycle_last_ip(outcomes@, None::<IpAddress>),
{
    let mut summary = CycleSummary { success_count: 0, failure_count: 0, last_discovered_ip: None };
    let n = outcomes.len();
    assert(outcomes@.subrange(0, 0) =~= Seq::<RecordOutcome>::empty());
    for i in 0..n
        invariant
            n == outcomes@.len(),
            summary.success_count == cycle_successes(outcomes@.subrange(0, i as int)),
            summary.failure_count == cycle_failures(outcomes@.subrange(0, i as int)),
            summary.success_count + summary.failure_count == i,
            summary.last_discovered_ip == cycle_last_ip(
                outcomes@.subrange(0, i as int),
                None::<IpAddress>,
            ),
    {
        proof {
            assert(outcomes@.subrange(0, i + 1).drop_last() =~= outcomes@.subrange(0, i as int));
            assert(outcomes@.subrange(0, i + 1).last() == outcomes@[i as int]);
        }
        let o = &outcomes[i];
        match o {
            RecordOutcome::Reconciled { ip, discovered, .. } => {
                summary.success_count = summary.success_count + 1;
                if *discovered {
                    summary.last_discovered_ip = Some(*ip);
                }
            },
            RecordOutcome::ReconcileFailed { ip, discovered, .. } => {
                summary.failure_count = summary.failure_count + 1;
                if *discovered {
                    summary.last_discovered_ip = Some(*ip);
                }
            },
            RecordOutcome::ResolveFailed { .. } => {
                summary.failure_count = summary.failure_count + 1;
            },
        }
    }
    proof {
        assert(outcomes@.subrange(0, n as int) =~= outcomes@);
        lemma_cycle_counts(outcomes@);
    }
    summary
}

/// Builds the summary line closing a cycle's log.
pub fn cycle_summary_message(s: &CycleSummary) -> (m: String)
    ensures
        m@ == cycle_summary_text(s.success_count as nat, s.failure_count as nat),
{
    let mut out: Vec<char> = Vec::new();
    push_str_chars(&mut out, "Update cycle completed: ");
    push_decimal(&mut out, s.success_count as u64);
    push_str_chars(&mut out, " successful, ");
    push_decimal(&mut out, s.failure_count as u64);
    push_str_chars(&mut out, " failed");
    proof {
        assert(out@ =~= cycle_summary_text(s.success_count as nat, s.failure_count as nat));
    }
    string_from_chars(&out)
}

} // verus!
