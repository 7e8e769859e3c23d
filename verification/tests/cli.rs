use nono_approval::broker::{ApprovalId, ApprovalSummary, BrokerError, CompletedApproval, TerminalState};
use nono_approval::cli::{
    broker_config, capture_lines, cleaned_line, cleared_line, decision_line, denial, list_lines,
    merge_config, remembered_decision, setup_lines, show_lines, status_lines, validate_resolved,
    ServeArgs,
};
use nono_approval::config::{ConfigFile, ListenAddr, ListenIp};
use nono_approval::control::{
    ApprovalView, DaemonStatus, DebugCaptureStatus, DecisionRequest, DecisionResponse,
};
use nono_approval::daemon::{
    banner, check_start, endpoint, format_task_result, run, DaemonConfig, DaemonError, RunEnd,
    TaskResult,
};
use nono_approval::debug_capture::CaptureInfo;
use nono_approval::policy::{RuleAction, RuleScope};
use nono_approval::runtime_path::RuntimePathError;

const ID: &str = "appr_7d8f2c6a1b3e4f50";

fn no_args() -> ServeArgs {
    ServeArgs {
        webhook_listen: None,
        request_timeout: None,
        max_pending: None,
        max_per_session: None,
        max_body: None,
    }
}

#[test]
fn options_stand_above_the_file() {
    let file = ConfigFile::default().resolve().unwrap();
    assert_eq!(merge_config(file, &no_args()), file);
    let merged = merge_config(
        file,
        &ServeArgs {
            max_pending: Some(4),
            request_timeout: Some(7),
            ..no_args()
        },
    );
    assert_eq!(merged.max_pending, 4);
    assert_eq!(merged.request_timeout, 7);
    assert_eq!(merged.max_per_session, file.max_per_session);
    assert_eq!(
        validate_resolved(&merged),
        Err("max-per-session must not exceed max-pending")
    );
    assert!(validate_resolved(&file).is_ok());
    let merged = merge_config(
        file,
        &ServeArgs {
            max_body: Some(0),
            ..no_args()
        },
    );
    assert_eq!(
        validate_resolved(&merged),
        Err("configured limits must be greater than zero")
    );
    let merged = merge_config(
        file,
        &ServeArgs {
            webhook_listen: Some(ListenAddr {
                ip: ListenIp::V4(10, 0, 0, 1),
                port: 1,
            }),
            ..no_args()
        },
    );
    assert_eq!(
        validate_resolved(&merged),
        Err("webhook listener must use a loopback IP address")
    );
    let broker = broker_config(&file);
    assert_eq!(broker.max_pending, 64);
    assert_eq!(broker.tombstone_limit, 1024);
}

#[test]
fn denials_need_a_valid_reason() {
    assert_eq!(
        denial(None).unwrap(),
        DecisionRequest::Denied {
            reason: "denied by local user".to_owned()
        }
    );
    assert_eq!(
        denial(Some("no".to_owned())).unwrap(),
        DecisionRequest::Denied {
            reason: "no".to_owned()
        }
    );
    assert_eq!(
        denial(Some("\0".to_owned())),
        Err(BrokerError::EmptyDenialReason)
    );
    let rule = remembered_decision(
        RuleAction::Deny,
        RuleScope::Path,
        Some("/work".to_owned()),
        Some("private".to_owned()),
    )
    .unwrap();
    assert_eq!(rule.path.as_deref(), Some("/work"));
    assert_eq!(rule.reason.as_deref(), Some("private"));
    assert!(remembered_decision(
        RuleAction::Deny,
        RuleScope::Path,
        None,
        Some("x".repeat(5000))
    )
    .is_err());
}

#[test]
fn the_status_is_printed() {
    let mut status = DaemonStatus {
        version: "0.1.0".to_owned(),
        uptime_seconds: 8,
        pending: 2,
        max_pending: 64,
        max_per_session: 8,
        webhook_listen: "127.0.0.1:17443".to_owned(),
        debug_capture: DebugCaptureStatus::Disabled,
        session_rule_count: 1,
    };
    assert_eq!(
        status_lines(&status),
        [
            "Daemon: running",
            "Pending: 2",
            "Started: 8s ago",
            "Webhook: 127.0.0.1:17443",
            "Session rules: 1",
            "Debug capture: disabled",
        ]
    );
    status.debug_capture = DebugCaptureStatus::Enabled {
        path: "/s/\u{1b}[31mx".to_owned(),
    };
    assert_eq!(status_lines(&status)[5], "Debug capture: enabled (/s/x)");
    status.debug_capture = DebugCaptureStatus::Failed {
        error_category: "io:Other".to_owned(),
    };
    assert_eq!(status_lines(&status)[5], "Debug capture: failed (io:Other)");
}

#[test]
fn the_queue_is_printed_in_columns() {
    let approvals = vec![ApprovalSummary {
        approval_id: ApprovalId::parse(ID).unwrap(),
        capability_type: "command".to_owned(),
        summary: "a rather long request".to_owned(),
        received_at: "2026-07-29T00:00:00Z".to_owned(),
        deadline: "2026-07-29T00:04:30Z".to_owned(),
    }];
    let lines = list_lines(&approvals, 80);
    assert_eq!(lines[0], "ID                     TYPE        REQUEST");
    assert_eq!(lines[1], format!("{ID} command     a rather long request"));
    assert_eq!(list_lines(&approvals, 40)[1], format!("{ID} command     a rat…"));
    assert_eq!(list_lines(&approvals, 10)[1], format!("{ID} command     "));
}

#[test]
fn completed_approvals_are_printed_without_details() {
    let view = ApprovalView::Completed(CompletedApproval {
        approval_id: ApprovalId::parse(ID).unwrap(),
        state: TerminalState::Expired,
        completed_at: "2026-07-27T12:00:03Z".to_owned(),
    });
    assert_eq!(
        show_lines(&view, true, ""),
        [
            format!("Approval: {ID}"),
            "State: Expired".to_owned(),
            "Completed: 2026-07-27T12:00:03Z".to_owned(),
        ]
    );
    assert_eq!(
        decision_line(&DecisionResponse {
            approval_id: ApprovalId::parse(ID).unwrap(),
            state: TerminalState::Granted,
        }),
        format!("{ID}: Granted")
    );
}

#[test]
fn setup_prints_a_profile_fragment() {
    let lines = setup_lines("/c/config.toml", "127.0.0.1:17443");
    assert_eq!(lines[0], "Configuration: /c/config.toml");
    assert_eq!(
        lines[1],
        "Webhook endpoint: http://127.0.0.1:17443/v1/webhooks/approval"
    );
    let fragment = lines[4..19].join("\n");
    let value: serde_json::Value = serde_json::from_str(&fragment).unwrap();
    let backend = &value["command_policies"]["approval_backends"]["local-broker"];
    assert_eq!(backend["url"], endpoint("127.0.0.1:17443"));
    assert_eq!(backend["type"], "webhook");
    assert_eq!(backend["timeout_secs"], 300);
    assert_eq!(
        value["command_policies"]["approval_defaults"]["backend"],
        "local-broker"
    );
    assert_eq!(serde_json::to_string_pretty(&value).unwrap(), fragment);
    assert!(lines[20].contains("config validate"));
}

#[test]
fn captures_are_printed() {
    let lines = capture_lines(&vec![CaptureInfo {
        name: "a.ndjson".to_owned(),
        created_at: "2026-07-27T12:00:00Z".to_owned(),
        size_bytes: 99,
    }]);
    assert_eq!(lines, ["a.ndjson\t2026-07-27T12:00:00Z\t99 bytes"]);
    assert_eq!(cleaned_line(3), "Deleted 3 debug capture file(s).");
    assert_eq!(cleared_line(1), "Cleared 1 session rule(s).");
}

fn loopback() -> ListenAddr {
    ListenAddr {
        ip: ListenIp::V4(127, 0, 0, 1),
        port: 17443,
    }
}

#[test]
fn the_daemon_checks_before_it_starts() {
    let config = DaemonConfig::new(loopback(), "/run/control.sock".to_owned());
    assert_eq!(config.max_body_bytes, 262_144);
    assert_eq!(config.max_detail_bytes, 1_048_576);
    assert!(check_start(&config, 107, true).is_ok());
    assert_eq!(
        check_start(&config, 107, false).unwrap_err().message(),
        "control socket has no parent"
    );
    assert_eq!(
        check_start(&config, 5, true),
        Err(DaemonError::RuntimePath(RuntimePathError::SocketPathTooLong(
            "/run/control.sock".to_owned()
        )))
    );
    let open = DaemonConfig::new(
        ListenAddr {
            ip: ListenIp::V4(0, 0, 0, 0),
            port: 1,
        },
        "/run/control.sock".to_owned(),
    );
    assert_eq!(check_start(&open, 5, false), Err(DaemonError::NonLoopback));
}

#[test]
fn the_daemon_prints_where_it_listens() {
    assert_eq!(
        banner("127.0.0.1:1", "/run/c.sock", &DebugCaptureStatus::Disabled),
        [
            "nono-approval is ready",
            "  webhook: http://127.0.0.1:1/v1/webhooks/approval",
            "  control: /run/c.sock",
        ]
    );
    let lines = banner(
        "127.0.0.1:1",
        "/run/c.sock",
        &DebugCaptureStatus::Enabled {
            path: "/s/x.ndjson".to_owned(),
        },
    );
    assert_eq!(lines[3], "  debug capture: /s/x.ndjson");
}

#[test]
fn only_a_signal_ends_a_run_well() {
    assert!(run(RunEnd::Signal).is_ok());
    assert_eq!(
        run(RunEnd::SignalFailed("x".to_owned())),
        Err(DaemonError::Io("x".to_owned()))
    );
    assert_eq!(
        run(RunEnd::Webhook(TaskResult::Finished))
            .unwrap_err()
            .message(),
        "webhook server stopped unexpectedly: server exited"
    );
    assert_eq!(
        run(RunEnd::Control(TaskResult::Lost("panicked".to_owned())))
            .unwrap_err()
            .message(),
        "control server stopped unexpectedly: panicked"
    );
    assert_eq!(format_task_result(TaskResult::Failed("io".to_owned())), "io");
    assert_eq!(
        DaemonError::Broker(BrokerError::NotFound).message(),
        "approval not found"
    );
    assert_eq!(
        DaemonError::NonLoopback.message(),
        "webhook listener must use a loopback IP address"
    );
}
