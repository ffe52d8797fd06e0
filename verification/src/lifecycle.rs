//! Startup checks, the scheduled tick, and shutdown coordination.
//!
//! The application performs the outside work — probing the control
//! endpoint, reading the configuration file, building the cron job — and
//! hands the outcomes here; this module decides whether the service may
//! start, what a tick does to the state, and which teardown steps a
//! shutdown trigger owes.

use vstd::prelude::*;
use crate::config::Config;
use crate::state::ServiceState;
use crate::text::{push_str_chars, string_from_chars};

verus! {

/// Why the service refused to start. Startup errors are fatal: the
/// service never enters its run loop.
#[derive(Clone, Debug, PartialEq, Eq)]
pub enum StartupError {
    /// Another instance's control endpoint is already reachable.
    AlreadyRunning,
    /// The configuration file could not be loaded; the loader's message.
    InvalidConfig { message: String },
    /// The schedule expression was rejected by the scheduler.
    InvalidSchedule,
}

/// The startup text of each fatal error.
pub open spec fn startup_error_text(e: StartupError) -> Seq<char> {
    match e {
        StartupError::AlreadyRunning => "Service is already running. Use 'cddns ui' to connect to it."@,
        StartupError::InvalidConfig { message } => message@,
        StartupError::InvalidSchedule => "Failed to create cron job. Check your cron expression."@,
    }
}

impl StartupError {
    /// The human-readable description of the error.
    pub fn message(&self) -> (s: String)
        ensures
            s@ == startup_error_text(*self),
    {
        match self {
            StartupError::AlreadyRunning => String::from_str(
                "Service is already running. Use 'cddns ui' to connect to it.",
            ),
            StartupError::InvalidConfig { message } => message.clone(),
            StartupError::InvalidSchedule => String::from_str(
                "Failed to create cron job. Check your cron expression.",
            ),
        }
    }
}

/// Decides whether the service may start, in check order: a reachable
/// endpoint fails first — before the configuration is even considered,
/// so the running instance's endpoint is left untouched — then a
/// configuration that would not load, then a rejected schedule. On
/// success the loaded configuration is handed back for installation.
pub fn plan_startup(
    already_running: bool,
    config_load: Result<Config, String>,
    schedule_valid: bool,
) -> (r: Result<Config, StartupError>)
    ensures
        r is Ok <==> !already_running && config_load is Ok && schedule_valid,
        already_running ==> r == Err::<Config, StartupError>(StartupError::AlreadyRunning),
        !already_running ==> match config_load {
            Err(m) => r matches Err(e) && (e matches StartupError::InvalidConfig { message }
                && message@ == m@),
            Ok(c) => if schedule_valid {
                r matches Ok(rc) && rc == c
            } else {
                r == Err::<Config, StartupError>(StartupError::InvalidSchedule)
            },
        },
{
    if already_running {
        return Err(StartupError::AlreadyRunning);
    }
    match config_load {
        Err(m) => Err(StartupError::InvalidConfig { message: m }),
        Ok(c) => {
            if !schedule_valid {
                Err(StartupError::InvalidSchedule)
            } else {
                Ok(c)
            }
        },
    }
}

/// Replaces the configuration when a reload succeeded and keeps the
/// previous one when it failed; reports whether the new one was applied.
/// Nothing else in the state moves.
pub fn apply_reload(state: &mut ServiceState, reload: Result<Config, String>) -> (applied: bool)
    ensures
        applied == (reload is Ok),
        reload matches Ok(c) ==> final(state).config == c,
        reload is Err ==> final(state).config == old(state).config,
        final(state).last_update == old(state).last_update,
        final(state).last_result == old(state).last_result,
        final(state).current_ip == old(state).current_ip,
        final(state).next_run == old(state).next_run,
        final(state).running == old(state).running,
{
    match reload {
        Ok(c) => {
            state.apply_config(c);
            true
        },
        Err(_) => false,
    }
}

/// What a scheduled tick does besides running its cycle.
#[derive(Clone, Copy, Debug, PartialEq, Eq, Structural)]
pub struct TickDirective {
    /// The tick always runs a cycle, bad configuration file or not.
    pub run_cycle: bool,
    /// Warn exactly when the reload failed and the prior config is kept.
    pub warn_stale_config: bool,
}

/// A scheduled tick first tries a reload: a failure keeps the previous
/// configuration (and so the previous cron text), earns exactly one
/// warning, and never stops the tick's cycle from running.
pub fn scheduled_tick(state: &mut ServiceState, reload: Result<Config, String>) -> (d:
    TickDirective)
    ensures
        d.run_cycle,
        d.warn_stale_config == (reload is Err),
        reload matches Ok(c) ==> final(state).config == c,
        reload is Err ==> final(state).config == old(state).config,
        final(state).last_update == old(state).last_update,
        final(state).last_result == old(state).last_result,
        final(state).current_ip == old(state).current_ip,
        final(state).next_run == old(state).next_run,
        final(state).running == old(state).running,
{
    let applied = apply_reload(state, reload);
    TickDirective { run_cycle: true, warn_stale_config: !applied }
}

/// The warning logged when a scheduled reload fails.
pub open spec fn reload_warning_text(err: Seq<char>) -> Seq<char> {
    "Failed to reload config, using existing: "@ + err
}

/// Builds the warning line for a failed scheduled reload.
pub fn reload_warning(err: &str) -> (s: String)
    ensures
        s@ == reload_warning_text(err@),
{
    let mut out: Vec<char> = Vec::new();
    push_str_chars(&mut out, "Failed to reload config, using existing: ");
    push_str_chars(&mut out, err);
    string_from_chars(&out)
}

/// Merges the OS termination signals and the control protocol's `Stop`
/// into one terminal event. The first trigger wins; later ones are
/// no-ops.
pub struct ShutdownCoordinator {
    triggered: bool,
}

impl ShutdownCoordinator {
    /// Whether shutdown has begun.
    pub closed spec fn is_triggered(&self) -> bool {
        self.triggered
    }

    /// A fresh coordinator; shutdown has not begun.
    pub fn new() -> (c: ShutdownCoordinator)
        ensures
            !c.is_triggered(),
    {
        ShutdownCoordinator { triggered: false }
    }

    /// Registers a shutdown trigger. Returns whether this was the first
    /// one; afterwards the coordinator is triggered for good, so a second
    /// trigger is a no-op.
    pub fn trigger(&mut self) -> (first: bool)
        ensures
            final(self).is_triggered(),
            first == !old(self).is_triggered(),
    {
        let first = !self.triggered;
        self.triggered = true;
        first
    }
}

/// The teardown a shutdown trigger owes, in order: mark the state as not
/// running, stop accepting control connections, cancel the scheduler's
/// future ticks, and remove the endpoint file. Deliberately absent: no
/// step cancels a cycle already in flight or an open connection; they
/// finish naturally.
#[derive(Clone, Copy, Debug, PartialEq, Eq, Structural)]
pub struct ShutdownSteps {
    pub mark_stopped: bool,
    pub cancel_acceptor: bool,
    pub cancel_scheduler: bool,
    pub remove_endpoint: bool,
}

/// Every teardown step is owed exactly once: on the first trigger, and
/// never again.
pub fn shutdown_steps(first_trigger: bool) -> (p: ShutdownSteps)
    ensures
        p.mark_stopped == first_trigger,
        p.cancel_acceptor == first_trigger,
        p.cancel_scheduler == first_trigger,
        p.remove_endpoint == first_trigger,
{
    ShutdownSteps {
        mark_stopped: first_trigger,
        cancel_acceptor: first_trigger,
        cancel_scheduler: first_trigger,
        remove_endpoint: first_trigger,
    }
}

} // verus!
