//! The control protocol's commands and responses, and the dispatcher that
//! decides what each command does.
//!
//! Transport is the application's job; it hands each parsed command here
//! and performs the step this module picks. Dispatch reads at most a
//! snapshot of the shared state, so a command is answered the same way
//! whether or not a cycle is in flight.

use vstd::prelude::*;
use crate::cycle::CycleSummary;
use crate::state::{ServiceState, state_wf, status_matches};
use crate::status::{LogMessage, ServiceStatus};
use crate::text::{decimal_text, push_decimal, push_str_chars, string_from_chars};

verus! {

/// A client's request to the service.
#[derive(Clone, Copy, Debug, PartialEq, Eq, Structural)]
pub enum Command {
    /// Ask for the current status snapshot.
    GetStatus,
    /// Ask for one immediate update cycle.
    TriggerUpdate,
    /// Ask the service to shut down.
    Stop,
    /// Ask whether the service is alive.
    Ping,
}

/// The service's answer to a client.
#[derive(Clone, Debug, PartialEq, Eq)]
pub enum Response {
    /// The current status snapshot.
    Status(ServiceStatus),
    /// An update was started.
    UpdateTriggered,
    /// A triggered update finished.
    UpdateResult { success: bool, message: String },
    /// The service is shutting down.
    Stopping,
    /// The service is alive.
    Pong,
    /// The request failed.
    Error(String),
    /// A log event from the service.
    Log(LogMessage),
}

/// What a command asks the connection loop to do.
#[derive(Clone, Debug, PartialEq, Eq)]
pub enum DispatchStep {
    /// Answer immediately with this response.
    Reply(Response),
    /// Reload the configuration best-effort, run one cycle, then answer
    /// with that cycle's result.
    RunCycle,
    /// Signal shutdown, answer `Stopping`, and end this connection.
    StopService,
}

/// Decides each command's effect. `Ping` is answered `Pong` from any
/// state whatsoever — in particular while a cycle is in flight — and
/// `GetStatus` is answered with a faithful snapshot.
pub fn plan_dispatch(cmd: &Command, state: &ServiceState) -> (d: DispatchStep)
    requires
        state_wf(*state),
    ensures
        *cmd == Command::Ping ==> d == DispatchStep::Reply(Response::Pong),
        *cmd == Command::GetStatus ==> (d matches DispatchStep::Reply(r) && (r matches
            Response::Status(st) && status_matches(*state, st))),
        *cmd == Command::TriggerUpdate ==> d == DispatchStep::RunCycle,
        *cmd == Command::Stop ==> d == DispatchStep::StopService,
{
    match cmd {
        Command::Ping => DispatchStep::Reply(Response::Pong),
        Command::GetStatus => DispatchStep::Reply(Response::Status(state.to_status())),
        Command::TriggerUpdate => DispatchStep::RunCycle,
        Command::Stop => DispatchStep::StopService,
    }
}

/// The message a triggered update reports: plain success, or the failure
/// count.
pub open spec fn update_result_text(failures: nat) -> Seq<char> {
    if failures == 0 {
        "Update completed successfully"@
    } else {
        decimal_text(failures) + " record(s) failed to update"@
    }
}

/// The answer to `TriggerUpdate` once its cycle has finished: success
/// exactly when no record failed.
pub fn update_result_response(summary: &CycleSummary) -> (r: Response)
    ensures
        r matches Response::UpdateResult { success, message } && success == (
        summary.failure_count == 0) && message@ == update_result_text(
            summary.failure_count as nat,
        ),
{
    let mut out: Vec<char> = Vec::new();
    if summary.failure_count == 0 {
        push_str_chars(&mut out, "Update completed successfully");
    } else {
        push_decimal(&mut out, summary.failure_count as u64);
        push_str_chars(&mut out, " record(s) failed to update");
    }
    proof {
        assert(out@ =~= update_result_text(summary.failure_count as nat));
    }
    Response::UpdateResult {
        success: summary.failure_count == 0,
        message: string_from_chars(&out),
    }
}

/// The answer sent before the connection ends on `Stop`.
pub fn stopping_response() -> (r: Response)
    ensures
        r == Response::Stopping,
{
    Response::Stopping
}

/// A connection's command loop continues after every response except
/// `Stopping`.
pub fn connection_continues(r: &Response) -> (b: bool)
    ensures
        b == !(*r is Stopping),
{
    !matches!(r, Response::Stopping)
}

} // verus!
