use cddns::addr::{ip_string, IpAddress};
use cddns::dispatch::{Command, Response};
use cddns::ipc_path::{socket_path, socket_path_from};
use cddns::status::{LogMessage, ServiceStatus};
use cddns::wire::{encode_command, encode_response, parse_command, parse_response};

fn status_fixture() -> ServiceStatus {
    ServiceStatus {
        running: true,
        cron: "*/5 * * * *".to_string(),
        last_update: Some("2023-11-14T22:13:20+00:00".to_string()),
        last_result: None,
        current_ip: Some("203.0.113.7".to_string()),
        record_count: 2,
        next_run: None,
    }
}

#[test]
fn command_frames_are_canonical() {
    assert_eq!(encode_command(&Command::GetStatus), "\"GetStatus\"\n");
    assert_eq!(encode_command(&Command::TriggerUpdate), "\"TriggerUpdate\"\n");
    assert_eq!(encode_command(&Command::Stop), "\"Stop\"\n");
    assert_eq!(encode_command(&Command::Ping), "\"Ping\"\n");
}

#[test]
fn command_round_trip() {
    for c in [Command::GetStatus, Command::TriggerUpdate, Command::Stop, Command::Ping] {
        assert_eq!(parse_command(&encode_command(&c)), Some(c));
    }
}

#[test]
fn command_rejects_noise() {
    assert_eq!(parse_command(""), None);
    assert_eq!(parse_command("\"Ping\""), None); // missing newline
    assert_eq!(parse_command("\"ping\"\n"), None);
    assert_eq!(parse_command("Ping\n"), None);
    assert_eq!(parse_command("\"Ping\"\n\n"), None);
    assert_eq!(parse_command("{\"Ping\":1}\n"), None);
}

#[test]
fn response_unit_frames() {
    assert_eq!(encode_response(&Response::Pong), "\"Pong\"\n");
    assert_eq!(encode_response(&Response::Stopping), "\"Stopping\"\n");
    assert_eq!(encode_response(&Response::UpdateTriggered), "\"UpdateTriggered\"\n");
}

#[test]
fn response_error_frame_and_escaping() {
    assert_eq!(
        encode_response(&Response::Error("boom".to_string())),
        "{\"Error\":\"boom\"}\n"
    );
    let tricky = "a\"b\\c\nd\te\rf";
    let frame = encode_response(&Response::Error(tricky.to_string()));
    assert_eq!(frame, "{\"Error\":\"a\\\"b\\\\c\\nd\\te\\rf\"}\n");
    match parse_response(&frame) {
        Some(Response::Error(m)) => assert_eq!(m, tricky),
        other => panic!("unexpected parse: {:?}", other),
    }
    // a control character outside the named escapes
    let frame = encode_response(&Response::Error("x\u{1}y".to_string()));
    assert_eq!(frame, "{\"Error\":\"x\\u0001y\"}\n");
    match parse_response(&frame) {
        Some(Response::Error(m)) => assert_eq!(m, "x\u{1}y"),
        other => panic!("unexpected parse: {:?}", other),
    }
}

#[test]
fn response_update_result_frame() {
    let frame = encode_response(&Response::UpdateResult {
        success: true,
        message: "Update completed successfully".to_string(),
    });
    assert_eq!(
        frame,
        "{\"UpdateResult\":{\"success\":true,\"message\":\"Update completed successfully\"}}\n"
    );
    match parse_response(&frame) {
        Some(Response::UpdateResult { success, message }) => {
            assert!(success);
            assert_eq!(message, "Update completed successfully");
        }
        other => panic!("unexpected parse: {:?}", other),
    }
}

#[test]
fn response_log_frame() {
    let r = Response::Log(LogMessage {
        level: "INFO".to_string(),
        message: "hello".to_string(),
        timestamp: "2024-01-01T00:00:00+00:00".to_string(),
    });
    let frame = encode_response(&r);
    assert_eq!(
        frame,
        "{\"Log\":{\"level\":\"INFO\",\"message\":\"hello\",\"timestamp\":\"2024-01-01T00:00:00+00:00\"}}\n"
    );
    assert_eq!(parse_response(&frame), Some(r));
}

#[test]
fn response_status_frame() {
    let r = Response::Status(status_fixture());
    let frame = encode_response(&r);
    assert_eq!(
        frame,
        "{\"Status\":{\"running\":true,\"cron\":\"*/5 * * * *\",\"last_update\":\"2023-11-14T22:13:20+00:00\",\"last_result\":null,\"current_ip\":\"203.0.113.7\",\"record_count\":2,\"next_run\":null}}\n"
    );
    assert_eq!(parse_response(&frame), Some(r));
}

#[test]
fn response_rejects_noise() {
    assert_eq!(parse_response(""), None);
    assert_eq!(parse_response("\"Pong\""), None); // missing newline
    assert_eq!(parse_response("\"Pong\" \n"), None);
    assert_eq!(parse_response("{\"Error\":\"unterminated}\n"), None);
    assert_eq!(parse_response("{\"Error\":\"bad\\qescape\"}\n"), None);
    assert_eq!(parse_response("{\"Error\":\"x\"} \n"), None);
    assert_eq!(parse_response("{\"Unknown\":true}\n"), None);
    assert_eq!(parse_response("{\"Status\":{\"running\":maybe}}\n"), None);
}

// The frames are the same JSON the original tooling produced: check the
// shape with an independent JSON reader.
#[test]
fn frames_are_plain_json() {
    let frame = encode_response(&Response::Status(status_fixture()));
    let v: serde_json::Value = serde_json::from_str(frame.trim_end()).unwrap();
    let st = v.get("Status").unwrap();
    assert_eq!(st.get("running").unwrap().as_bool(), Some(true));
    assert_eq!(st.get("cron").unwrap().as_str(), Some("*/5 * * * *"));
    assert!(st.get("last_result").unwrap().is_null());
    assert_eq!(st.get("record_count").unwrap().as_u64(), Some(2));

    let frame = encode_command(&Command::TriggerUpdate);
    let v: serde_json::Value = serde_json::from_str(frame.trim_end()).unwrap();
    assert_eq!(v.as_str(), Some("TriggerUpdate"));
}

#[test]
fn response_empty_strings_and_count_bounds() {
    let frame = encode_response(&Response::Error(String::new()));
    assert_eq!(frame, "{\"Error\":\"\"}\n");
    assert_eq!(parse_response(&frame), Some(Response::Error(String::new())));

    let mut st = status_fixture();
    st.record_count = 999_999_999;
    let r = Response::Status(st);
    let frame = encode_response(&r);
    assert_eq!(parse_response(&frame), Some(r));

    // a count of ten digits is not a frame this protocol accepts
    let frame = "{\"Status\":{\"running\":true,\"cron\":\"c\",\"last_update\":null,\"last_result\":null,\"current_ip\":null,\"record_count\":1000000000,\"next_run\":null}}\n";
    assert_eq!(parse_response(frame), None);
}

#[test]
fn ip_text_forms() {
    assert_eq!(ip_string(&IpAddress::V4 { a: 0, b: 0, c: 0, d: 0 }), "0.0.0.0");
    assert_eq!(ip_string(&IpAddress::V4 { a: 255, b: 255, c: 255, d: 255 }), "255.255.255.255");
    assert_eq!(ip_string(&IpAddress::V4 { a: 192, b: 0, c: 2, d: 17 }), "192.0.2.17");
    let v6 = IpAddress::V6 { g0: 0x2001, g1: 0xdb8, g2: 0, g3: 0, g4: 0, g5: 0, g6: 0, g7: 1 };
    assert_eq!(ip_string(&v6), "2001:db8:0:0:0:0:0:1");
    let v6 = IpAddress::V6 {
        g0: 0xffff, g1: 0xffff, g2: 0xffff, g3: 0xffff,
        g4: 0xffff, g5: 0xffff, g6: 0xffff, g7: 0xffff,
    };
    assert_eq!(ip_string(&v6), "ffff:ffff:ffff:ffff:ffff:ffff:ffff:ffff");
}

#[test]
fn socket_path_choice() {
    assert_eq!(
        socket_path_from(Some("/run/user/1000".to_string()), Some("/state".to_string())),
        "/run/user/1000/cddns.sock"
    );
    assert_eq!(
        socket_path_from(None, Some("/state".to_string())),
        "/state/cddns.sock"
    );
    assert_eq!(socket_path_from(None, None), "/tmp/cddns.sock");
    assert!(socket_path().ends_with("/cddns.sock"));
}
