use cddns::addr::IpAddress;
use cddns::config::{Config, ConfigError, RecordConfig, RecordType};
use cddns::cycle::{
    cycle_summary_message, forced_ip_message, outcome_log_line, processing_message,
    reconcile_failure, resolve_failure, resolve_plan, run_cycle, CycleSummary, RecordOutcome,
    ResolvePlan, UpdateResult,
};
use cddns::dispatch::{
    connection_continues, plan_dispatch, stopping_response, update_result_response, Command,
    DispatchStep, Response,
};
use cddns::lifecycle::{
    plan_startup, reload_warning, scheduled_tick, shutdown_steps, ShutdownCoordinator,
    StartupError,
};
use cddns::state::{result_summary, ServiceState};
use cddns::status::LogMessage;

fn test_config() -> Config {
    Config::from_args(
        "token".to_string(),
        "example.com".to_string(),
        "home.example.com".to_string(),
        RecordType::A,
        false,
        1,
        None,
    )
    .unwrap()
}

fn ip(a: u8, b: u8, c: u8, d: u8) -> IpAddress {
    IpAddress::V4 { a, b, c, d }
}

fn record() -> RecordConfig {
    RecordConfig {
        zone: "example.com".to_string(),
        name: "home.example.com".to_string(),
        record_type: RecordType::A,
        proxied: false,
        ttl: 1,
    }
}

// Over any injected outcomes, every record is counted exactly once.
#[test]
fn cycle_counts_add_up() {
    let outcomes = vec![
        RecordOutcome::ResolveFailed { message: "x".to_string() },
        RecordOutcome::Reconciled { ip: ip(1, 2, 3, 4), discovered: true, result: UpdateResult::Created },
        RecordOutcome::ReconcileFailed { ip: ip(5, 6, 7, 8), discovered: false, message: "y".to_string() },
        RecordOutcome::Reconciled { ip: ip(9, 9, 9, 9), discovered: false, result: UpdateResult::Unchanged },
        RecordOutcome::Reconciled {
            ip: ip(1, 1, 1, 1),
            discovered: true,
            result: UpdateResult::Updated { old_ip: None, new_ip: ip(1, 1, 1, 1) },
        },
    ];
    let s = run_cycle(&outcomes);
    assert_eq!(s.success_count + s.failure_count, outcomes.len());
    assert_eq!(s.success_count, 3);
    assert_eq!(s.failure_count, 2);
    assert_eq!(s.last_discovered_ip, Some(ip(1, 1, 1, 1)));
}

#[test]
fn cycle_empty() {
    let s = run_cycle(&Vec::new());
    assert_eq!(s.success_count, 0);
    assert_eq!(s.failure_count, 0);
    assert_eq!(s.last_discovered_ip, None);
}

// One failed resolution and one created record: one success, one failure,
// and the current IP is the created record's discovered address.
#[test]
fn mixed_cycle_reports_discovered_ip() {
    let b_ip = ip(203, 0, 113, 7);
    let outcomes = vec![
        RecordOutcome::ResolveFailed { message: "no route".to_string() },
        RecordOutcome::Reconciled { ip: b_ip, discovered: true, result: UpdateResult::Created },
    ];
    let s = run_cycle(&outcomes);
    assert_eq!(s.success_count, 1);
    assert_eq!(s.failure_count, 1);
    assert_eq!(s.last_discovered_ip, Some(b_ip));

    let mut state = ServiceState::new(test_config());
    state.record_cycle_outcome(1700000000, &s);
    assert_eq!(state.current_ip, Some(b_ip));
    assert_eq!(state.last_update, Some(1700000000));
    assert_eq!(state.last_result.as_deref(), Some("1 failed"));
    let st = state.to_status();
    assert_eq!(st.current_ip.as_deref(), Some("203.0.113.7"));
}

// Ping is answered Pong from any state, cycle in flight or not.
#[test]
fn ping_always_pong() {
    let mut state = ServiceState::new(test_config());
    let d = plan_dispatch(&Command::Ping, &state);
    assert_eq!(d, DispatchStep::Reply(Response::Pong));
    let s = CycleSummary { success_count: 1, failure_count: 0, last_discovered_ip: Some(ip(1, 2, 3, 4)) };
    state.record_cycle_outcome(1700000000, &s);
    let d = plan_dispatch(&Command::Ping, &state);
    assert_eq!(d, DispatchStep::Reply(Response::Pong));
    state.mark_stopped();
    let d = plan_dispatch(&Command::Ping, &state);
    assert_eq!(d, DispatchStep::Reply(Response::Pong));
}

#[test]
fn dispatch_get_status_snapshots() {
    let state = ServiceState::new(test_config());
    match plan_dispatch(&Command::GetStatus, &state) {
        DispatchStep::Reply(Response::Status(st)) => {
            assert!(st.running);
            assert_eq!(st.cron, "*/5 * * * *");
            assert_eq!(st.record_count, 1);
            assert_eq!(st.last_update, None);
            assert_eq!(st.last_result, None);
            assert_eq!(st.current_ip, None);
            assert_eq!(st.next_run, None);
        }
        other => panic!("unexpected dispatch: {:?}", other),
    }
}

#[test]
fn dispatch_trigger_and_stop() {
    let state = ServiceState::new(test_config());
    assert_eq!(plan_dispatch(&Command::TriggerUpdate, &state), DispatchStep::RunCycle);
    assert_eq!(plan_dispatch(&Command::Stop, &state), DispatchStep::StopService);
    let stopping = stopping_response();
    assert_eq!(stopping, Response::Stopping);
    assert!(!connection_continues(&stopping));
    assert!(connection_continues(&Response::Pong));
}

#[test]
fn update_result_messages() {
    let ok = update_result_response(&CycleSummary {
        success_count: 2,
        failure_count: 0,
        last_discovered_ip: None,
    });
    match ok {
        Response::UpdateResult { success, message } => {
            assert!(success);
            assert_eq!(message, "Update completed successfully");
        }
        other => panic!("unexpected response: {:?}", other),
    }
    let bad = update_result_response(&CycleSummary {
        success_count: 1,
        failure_count: 2,
        last_discovered_ip: None,
    });
    match bad {
        Response::UpdateResult { success, message } => {
            assert!(!success);
            assert_eq!(message, "2 record(s) failed to update");
        }
        other => panic!("unexpected response: {:?}", other),
    }
}

// A reload with an invalid file during a scheduled tick keeps the config
// and cron, warns exactly once, and still runs the cycle.
#[test]
fn scheduled_tick_with_bad_reload() {
    let mut state = ServiceState::new(test_config());
    let d = scheduled_tick(&mut state, Err("parse error at line 3".to_string()));
    assert!(d.run_cycle);
    assert!(d.warn_stale_config);
    assert_eq!(state.config.service.cron, "*/5 * * * *");
    assert_eq!(state.config.cloudflare.api_token, "token");
    assert_eq!(state.config.records.len(), 1);
    assert_eq!(
        reload_warning("parse error at line 3"),
        "Failed to reload config, using existing: parse error at line 3"
    );
}

#[test]
fn scheduled_tick_with_good_reload() {
    let mut state = ServiceState::new(test_config());
    let mut new_config = test_config();
    new_config.service.cron = "0 * * * * *".to_string();
    let d = scheduled_tick(&mut state, Ok(new_config));
    assert!(d.run_cycle);
    assert!(!d.warn_stale_config);
    assert_eq!(state.config.service.cron, "0 * * * * *");
}

// Two cycles writing their status groups in sequence: the final snapshot
// carries the later writer's whole group, never a mix.
#[test]
fn status_writes_do_not_tear() {
    let mut state = ServiceState::new(test_config());
    let first = CycleSummary {
        success_count: 1,
        failure_count: 0,
        last_discovered_ip: Some(ip(10, 0, 0, 1)),
    };
    let second = CycleSummary {
        success_count: 0,
        failure_count: 2,
        last_discovered_ip: None,
    };
    state.record_cycle_outcome(1000, &first);
    state.record_cycle_outcome(2000, &second);
    assert_eq!(state.last_update, Some(2000));
    assert_eq!(state.last_result.as_deref(), Some("2 failed"));
    // the later cycle discovered nothing, so the earlier group's IP stays
    assert_eq!(state.current_ip, Some(ip(10, 0, 0, 1)));
}

// Starting while another instance's endpoint is reachable fails fast,
// before the configuration is even considered.
#[test]
fn startup_already_running_fails_fast() {
    let r = plan_startup(true, Ok(test_config()), true);
    match r {
        Err(StartupError::AlreadyRunning) => {}
        other => panic!("unexpected startup outcome: {:?}", other),
    }
    assert_eq!(
        StartupError::AlreadyRunning.message(),
        "Service is already running. Use 'cddns ui' to connect to it."
    );
}

#[test]
fn startup_errors_in_order() {
    let r = plan_startup(false, Err("no such file".to_string()), false);
    match r {
        Err(StartupError::InvalidConfig { message }) => assert_eq!(message, "no such file"),
        other => panic!("unexpected startup outcome: {:?}", other),
    }
    let r = plan_startup(false, Ok(test_config()), false);
    match r {
        Err(StartupError::InvalidSchedule) => {}
        other => panic!("unexpected startup outcome: {:?}", other),
    }
    let r = plan_startup(false, Ok(test_config()), true);
    assert!(r.is_ok());
    assert!(r.unwrap().service.run_on_start);
}

#[test]
fn shutdown_trigger_is_idempotent() {
    let mut c = ShutdownCoordinator::new();
    assert!(c.trigger());
    assert!(!c.trigger());
    assert!(!c.trigger());
    let steps = shutdown_steps(true);
    assert!(steps.mark_stopped);
    assert!(steps.cancel_acceptor);
    assert!(steps.cancel_scheduler);
    assert!(steps.remove_endpoint);
    let steps = shutdown_steps(false);
    assert!(!steps.mark_stopped);
    assert!(!steps.remove_endpoint);
}

#[test]
fn mark_stopped_keeps_other_fields() {
    let mut state = ServiceState::new(test_config());
    let s = CycleSummary { success_count: 1, failure_count: 0, last_discovered_ip: None };
    state.record_cycle_outcome(5, &s);
    state.mark_stopped();
    assert!(!state.running);
    assert_eq!(state.last_update, Some(5));
    assert_eq!(state.last_result.as_deref(), Some("Success"));
    let st = state.to_status();
    assert!(!st.running);
}

#[test]
fn resolve_plan_honours_forced_ip() {
    let mut config = test_config();
    assert_eq!(resolve_plan(&config.settings), ResolvePlan::Discover);
    config.settings.force_ip = Some(ip(192, 0, 2, 1));
    assert_eq!(resolve_plan(&config.settings), ResolvePlan::UseForced { ip: ip(192, 0, 2, 1) });
}

#[test]
fn cycle_log_lines() {
    let r = record();
    assert_eq!(processing_message(&r), "Processing A record: home.example.com");
    assert_eq!(forced_ip_message(&ip(192, 0, 2, 1)), "Using forced IP: 192.0.2.1");
    let o = resolve_failure(&r, "timed out");
    match &o {
        RecordOutcome::ResolveFailed { message } => {
            assert_eq!(message, "Failed to get public IP for home.example.com: timed out");
        }
        other => panic!("unexpected outcome: {:?}", other),
    }
    let (is_err, line) = outcome_log_line(&r, &o);
    assert!(is_err);
    assert_eq!(line, "Failed to get public IP for home.example.com: timed out");

    let o = reconcile_failure(&r, ip(1, 2, 3, 4), true, "api error");
    let (is_err, line) = outcome_log_line(&r, &o);
    assert!(is_err);
    assert_eq!(line, "Failed to update home.example.com: api error");

    let o = RecordOutcome::Reconciled {
        ip: ip(1, 2, 3, 4),
        discovered: true,
        result: UpdateResult::Created,
    };
    let (is_err, line) = outcome_log_line(&r, &o);
    assert!(!is_err);
    assert_eq!(line, "Created new record: home.example.com -> 1.2.3.4");

    let o = RecordOutcome::Reconciled {
        ip: ip(1, 2, 3, 4),
        discovered: true,
        result: UpdateResult::Updated { old_ip: Some(ip(9, 8, 7, 6)), new_ip: ip(1, 2, 3, 4) },
    };
    let (_, line) = outcome_log_line(&r, &o);
    assert_eq!(line, "Updated record: home.example.com (9.8.7.6 -> 1.2.3.4)");

    let o = RecordOutcome::Reconciled {
        ip: ip(1, 2, 3, 4),
        discovered: true,
        result: UpdateResult::Updated { old_ip: None, new_ip: ip(1, 2, 3, 4) },
    };
    let (_, line) = outcome_log_line(&r, &o);
    assert_eq!(line, "Updated record: home.example.com (unknown -> 1.2.3.4)");

    let o = RecordOutcome::Reconciled {
        ip: ip(1, 2, 3, 4),
        discovered: false,
        result: UpdateResult::Unchanged,
    };
    let (_, line) = outcome_log_line(&r, &o);
    assert_eq!(line, "Record unchanged: home.example.com already points to 1.2.3.4");

    let s = CycleSummary { success_count: 3, failure_count: 1, last_discovered_ip: None };
    assert_eq!(cycle_summary_message(&s), "Update cycle completed: 3 successful, 1 failed");
}

#[test]
fn result_summaries() {
    assert_eq!(result_summary(0), "Success");
    assert_eq!(result_summary(1), "1 failed");
    assert_eq!(result_summary(37), "37 failed");
}

#[test]
fn status_timestamps_render_rfc3339() {
    let mut state = ServiceState::new(test_config());
    let s = CycleSummary { success_count: 1, failure_count: 0, last_discovered_ip: None };
    state.record_cycle_outcome(0, &s);
    let st = state.to_status();
    assert_eq!(st.last_update.as_deref(), Some("1970-01-01T00:00:00+00:00"));
    state.record_cycle_outcome(1700000000, &s);
    let st = state.to_status();
    assert_eq!(st.last_update.as_deref(), Some("2023-11-14T22:13:20+00:00"));
}

#[test]
fn validate_rejects_in_order() {
    let mut c = test_config();
    c.cloudflare.api_token = String::new();
    assert_eq!(c.validate(), Err(ConfigError::EmptyApiToken));
    let mut c = test_config();
    c.records.clear();
    assert_eq!(c.validate(), Err(ConfigError::NoRecords));
    let mut c = test_config();
    c.records[0].zone = String::new();
    assert_eq!(c.validate(), Err(ConfigError::EmptyZone { index: 0 }));
    let mut c = test_config();
    c.records[0].name = String::new();
    assert_eq!(c.validate(), Err(ConfigError::EmptyName { index: 0 }));
    assert!(test_config().validate().is_ok());
    let mut c = test_config();
    c.records.push(record());
    c.records[1].zone = String::new();
    assert_eq!(c.validate(), Err(ConfigError::EmptyZone { index: 1 }));
}

#[test]
fn config_error_messages() {
    assert_eq!(ConfigError::EmptyApiToken.message(), "Cloudflare API token cannot be empty");
    assert_eq!(ConfigError::NoRecords.message(), "At least one DNS record must be configured");
    assert_eq!(ConfigError::EmptyZone { index: 0 }.message(), "Record zone cannot be empty");
    assert_eq!(ConfigError::EmptyName { index: 2 }.message(), "Record name cannot be empty");
}

#[test]
fn from_args_builds_and_validates() {
    let c = Config::from_args(
        "tok".to_string(),
        "z.example".to_string(),
        "n.z.example".to_string(),
        RecordType::AAAA,
        true,
        300,
        Some(ip(198, 51, 100, 3)),
    )
    .unwrap();
    assert_eq!(c.records.len(), 1);
    assert_eq!(c.records[0].record_type, RecordType::AAAA);
    assert!(c.records[0].proxied);
    assert_eq!(c.records[0].ttl, 300);
    assert_eq!(c.settings.force_ip, Some(ip(198, 51, 100, 3)));
    assert_eq!(c.settings.ipv4_url, "https://api.ipify.org");
    assert_eq!(c.settings.ipv6_url, "https://api6.ipify.org");
    assert!(c.service.run_on_start);

    let r = Config::from_args(
        String::new(),
        "z".to_string(),
        "n".to_string(),
        RecordType::A,
        false,
        1,
        None,
    );
    assert_eq!(r.err(), Some(ConfigError::EmptyApiToken));
}

#[test]
fn record_type_parsing() {
    assert_eq!(RecordType::parse("A"), Ok(RecordType::A));
    assert_eq!(RecordType::parse("a"), Ok(RecordType::A));
    assert_eq!(RecordType::parse("AAAA"), Ok(RecordType::AAAA));
    assert_eq!(RecordType::parse("aAaA"), Ok(RecordType::AAAA));
    assert_eq!(
        RecordType::parse("MX"),
        Err("Invalid record type: MX. Use 'A' or 'AAAA'".to_string())
    );
    assert!(RecordType::parse("").is_err());
    assert!(RecordType::parse("AA").is_err());
    assert_eq!(RecordType::A.label(), "A");
    assert_eq!(RecordType::AAAA.label(), "AAAA");
}

#[test]
fn defaults() {
    assert_eq!(cddns::config::default_cron(), "*/5 * * * *");
    assert!(cddns::config::default_run_on_start());
    assert_eq!(cddns::config::default_record_type(), RecordType::A);
    assert_eq!(cddns::config::default_ttl(), 1);
    assert_eq!(cddns::config::default_ipv4_url(), "https://api.ipify.org");
    assert_eq!(cddns::config::default_ipv6_url(), "https://api6.ipify.org");
    let sc = cddns::config::ServiceConfig::default();
    assert_eq!(sc.cron, "*/5 * * * *");
    assert!(sc.run_on_start);
    let s = cddns::config::Settings::default();
    assert_eq!(s.ipv4_url, "https://api.ipify.org");
    assert!(s.force_ip.is_none());
    let st = cddns::status::ServiceStatus::default();
    assert!(!st.running);
    assert_eq!(st.record_count, 0);
}

#[test]
fn log_message_fields() {
    let m = LogMessage::new("INFO".to_string(), "hello".to_string(), "t".to_string());
    assert_eq!(m.level, "INFO");
    assert_eq!(m.message, "hello");
    assert_eq!(m.timestamp, "t");
}
