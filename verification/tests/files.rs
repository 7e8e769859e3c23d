use nono_approval::broker::{ApprovalId, Completion, DecisionSource, TerminalState};
use nono_approval::clock::{timestamp, MAX_WRITTEN_TIME, SECOND};
use nono_approval::config::{
    add_up, can_be_held, check_file, load, parse_byte_size, parse_duration, setup, ConfigError,
    ConfigFile, ConfigRead, ListenIp, SetupAction, DURATION_LIMIT, TOO_LONG,
};
use nono_approval::debug_capture::{
    capture_directory, capture_file_name, clean_captures, list_captures, managed_name,
    AppendOutcome, CaptureEntry, CaptureRecord, DebugCapture, DebugCaptureError,
    DebugCaptureStatus, CAPTURE_SCHEMA_VERSION, DELIVERY_OUTCOME,
};
use nono_approval::display::build_detail;
use nono_approval::peer_identity::verify_owner;
use nono_approval::policy::{RuleAction, RuleDraft, RuleScope};
use nono_approval::profile_validation::{
    run_probe, validate_profile, ProbeConnection, ProbeOutput, ValidationError, PROBE_STARTED,
};
use nono_approval::protocol::{AccessMode, IncomingApproval, KnownApprovalRequest, WebhookDecision};
use nono_approval::runtime_path::{
    ensure_owner_directory, inspect_socket, remove_stale_socket, validate_socket_path,
    ConnectOutcome, DirectoryAction, Lookup, PathEntry, PathStep, ProjectDirectories, ProjectPaths,
    RuntimePathError, SocketAction, LINUX_SOCKET_PATH_LIMIT, OTHER_SOCKET_PATH_LIMIT,
};

fn directory() -> PathEntry {
    PathEntry {
        symlink: false,
        directory: true,
        regular_file: false,
        socket: false,
        uid: 1000,
        mode: 0o40700,
    }
}

fn file() -> PathEntry {
    PathEntry {
        symlink: false,
        directory: false,
        regular_file: true,
        socket: false,
        uid: 1000,
        mode: 0o100600,
    }
}

#[test]
fn creates_owner_only_directory() {
    let steps = vec![PathStep {
        path: "/tmp".to_owned(),
        symlink: false,
    }];
    assert_eq!(
        ensure_owner_directory("/tmp/runtime", &steps, Lookup::Missing, 1000),
        Ok(DirectoryAction::Create)
    );
    assert_eq!(
        ensure_owner_directory("/tmp/runtime", &steps, Lookup::Found(directory()), 1000),
        Ok(DirectoryAction::Keep)
    );
}

#[test]
fn directories_of_others_and_links_are_refused() {
    let none = Vec::new();
    let check = |entry: PathEntry| ensure_owner_directory("/d", &none, Lookup::Found(entry), 1000);
    assert_eq!(
        check(PathEntry {
            symlink: true,
            ..directory()
        }),
        Err(RuntimePathError::Symlink("/d".to_owned()))
    );
    assert_eq!(
        check(file()),
        Err(RuntimePathError::NotDirectory("/d".to_owned()))
    );
    assert_eq!(
        check(PathEntry {
            uid: 0,
            ..directory()
        }),
        Err(RuntimePathError::WrongOwner("/d".to_owned()))
    );
    assert_eq!(
        ensure_owner_directory("/d", &none, Lookup::Failed("io".to_owned()), 1000),
        Err(RuntimePathError::Io("io".to_owned()))
    );
    let steps = vec![
        PathStep {
            path: "/a".to_owned(),
            symlink: false,
        },
        PathStep {
            path: "/a/b".to_owned(),
            symlink: true,
        },
    ];
    assert_eq!(
        ensure_owner_directory("/a/b/c", &steps, Lookup::Missing, 1000),
        Err(RuntimePathError::Symlink("/a/b".to_owned()))
    );
}

#[test]
fn project_paths_fall_back_to_local_data() {
    let directories = |runtime: Option<&str>, state: Option<&str>| {
        Some(ProjectDirectories {
            config_dir: "/home/u/.config/nono-approval".to_owned(),
            state_dir: state.map(str::to_owned),
            data_local_dir: "/home/u/.local/share/nono-approval".to_owned(),
            runtime_dir: runtime.map(str::to_owned),
        })
    };
    let paths =
        ProjectPaths::resolve(directories(Some("/run/user/1"), Some("/state")), 107).unwrap();
    assert_eq!(paths.config_file, "/home/u/.config/nono-approval/config.toml");
    assert_eq!(paths.state_dir, "/state");
    assert_eq!(paths.control_socket, "/run/user/1/control.sock");
    let paths = ProjectPaths::resolve(directories(None, None), 107).unwrap();
    assert_eq!(paths.state_dir, "/home/u/.local/share/nono-approval");
    assert_eq!(paths.runtime_dir, "/home/u/.local/share/nono-approval/runtime");
    assert!(matches!(
        ProjectPaths::resolve(None, 107),
        Err(RuntimePathError::Unavailable)
    ));
    assert!(matches!(
        ProjectPaths::resolve(directories(None, None), 20),
        Err(RuntimePathError::SocketPathTooLong(_))
    ));
    assert!(validate_socket_path(&"x".repeat(107), LINUX_SOCKET_PATH_LIMIT).is_ok());
    assert!(validate_socket_path(&"x".repeat(108), LINUX_SOCKET_PATH_LIMIT).is_err());
    assert!(validate_socket_path(&"é".repeat(52), OTHER_SOCKET_PATH_LIMIT).is_err());
}

#[test]
fn only_sockets_that_nobody_listens_at_are_removed() {
    let socket = PathEntry {
        socket: true,
        regular_file: false,
        ..file()
    };
    assert_eq!(
        inspect_socket("/s", Lookup::Missing, 1000),
        Ok(SocketAction::Nothing)
    );
    assert_eq!(
        inspect_socket("/s", Lookup::Found(socket), 1000),
        Ok(SocketAction::Connect)
    );
    assert_eq!(
        inspect_socket("/s", Lookup::Found(file()), 1000),
        Err(RuntimePathError::UnsafeSocket("/s".to_owned()))
    );
    assert!(inspect_socket("/s", Lookup::Failed("x".to_owned()), 1000).is_err());
    assert!(remove_stale_socket("/s", ConnectOutcome::Refused).is_ok());
    assert!(remove_stale_socket("/s", ConnectOutcome::Missing).is_ok());
    for outcome in [ConnectOutcome::Connected, ConnectOutcome::OtherError] {
        assert_eq!(
            remove_stale_socket("/s", outcome),
            Err(RuntimePathError::UnsafeSocket("/s".to_owned()))
        );
    }
}

#[test]
fn runtime_path_errors_have_messages() {
    for (error, message) in [
        (
            RuntimePathError::Unavailable,
            "could not resolve platform project directories",
        ),
        (
            RuntimePathError::WrongOwner("/p".to_owned()),
            "runtime path is not owned by the current user: /p",
        ),
        (
            RuntimePathError::NotDirectory("/p".to_owned()),
            "runtime path is not a directory: /p",
        ),
        (
            RuntimePathError::Symlink("/p".to_owned()),
            "runtime path must not be a symlink: /p",
        ),
        (
            RuntimePathError::SocketPathTooLong("/p".to_owned()),
            "control socket path is too long for this platform: /p",
        ),
        (
            RuntimePathError::UnsafeSocket("/p".to_owned()),
            "unsafe existing control socket path: /p",
        ),
        (RuntimePathError::Io("io".to_owned()), "io"),
    ] {
        assert_eq!(error.message(), message);
    }
}

#[test]
fn setup_is_owner_only_and_idempotent() {
    let Ok(SetupAction::Create(created)) = setup(false, true) else {
        panic!("expected a new file");
    };
    let loaded = load(
        "/c/config.toml",
        Lookup::Found(file()),
        1000,
        ConfigRead::Parsed(created),
    )
    .unwrap();
    assert_eq!(loaded.approval.request_timeout, "270s");
    assert!(matches!(setup(true, true), Ok(SetupAction::Load)));
    assert_eq!(
        setup(false, false).unwrap_err().message(),
        "config path has no parent"
    );
}

#[test]
fn rejects_unknown_fields_and_unsafe_permissions() {
    assert_eq!(
        load(
            "/c.toml",
            Lookup::Found(file()),
            1000,
            ConfigRead::Malformed("unknown field `unknown`".to_owned())
        )
        .unwrap_err(),
        ConfigError::TomlDecode("unknown field `unknown`".to_owned())
    );
    let readable = PathEntry {
        mode: 0o100644,
        ..file()
    };
    assert_eq!(
        load(
            "/c.toml",
            Lookup::Found(readable),
            1000,
            ConfigRead::Parsed(ConfigFile::default())
        )
        .unwrap_err(),
        ConfigError::UnsafePermissions("/c.toml".to_owned())
    );
    assert_eq!(
        check_file("/c.toml", &Lookup::Missing, 1000),
        Err(ConfigError::Missing("/c.toml".to_owned()))
    );
    assert_eq!(
        check_file("/c.toml", &Lookup::Found(file()), 0),
        Err(ConfigError::UnsafeFile("/c.toml".to_owned()))
    );
    assert_eq!(
        check_file("/c.toml", &Lookup::Failed("io".to_owned()), 0),
        Err(ConfigError::Io("io".to_owned()))
    );
}

#[test]
fn the_built_in_configuration_is_valid() {
    let resolved = ConfigFile::default().resolve().unwrap();
    assert_eq!(resolved.request_timeout, 270 * SECOND);
    assert_eq!(resolved.max_body_bytes, 256 * 1024);
    assert_eq!(resolved.max_pending, 64);
    assert_eq!(resolved.max_per_session, 8);
    assert_eq!(resolved.webhook_listen.port, 17443);
}

#[test]
fn configurations_are_validated_in_order() {
    let config = |change: fn(&mut ConfigFile)| {
        let mut config = ConfigFile::default();
        change(&mut config);
        config.resolve()
    };
    assert_eq!(
        config(|c| c.schema_version = 2),
        Err(ConfigError::SchemaVersion(2))
    );
    assert_eq!(
        config(|c| c.webhook.listen.ip = ListenIp::V4(0, 0, 0, 0)),
        Err(ConfigError::NonLoopback)
    );
    assert!(config(|c| c.webhook.listen.ip = ListenIp::V4(127, 9, 9, 9)).is_ok());
    assert!(config(|c| c.webhook.listen.ip = ListenIp::V6(0, 0, 0, 0, 0, 0, 0, 1)).is_ok());
    assert_eq!(
        config(|c| c.webhook.listen.ip = ListenIp::V6(0, 0, 0, 0, 0, 0xffff, 0x7f00, 1)),
        Err(ConfigError::NonLoopback)
    );
    assert_eq!(
        config(|c| c.approval.max_pending = 0),
        Err(ConfigError::ZeroLimit)
    );
    assert_eq!(
        config(|c| c.approval.max_per_session = 65),
        Err(ConfigError::PerSessionExceedsGlobal)
    );
    assert!(matches!(
        config(|c| c.approval.request_timeout = "soon".to_owned()),
        Err(ConfigError::InvalidDuration(_))
    ));
    assert!(matches!(
        config(|c| c.approval.max_body = "much".to_owned()),
        Err(ConfigError::InvalidByteSize(_))
    ));
    assert_eq!(
        config(|c| c.approval.max_body = "0".to_owned()),
        Err(ConfigError::InvalidByteSize(
            "value must be greater than zero".to_owned()
        ))
    );
}

#[test]
fn written_values_are_read_before_they_are_judged() {
    let config = ConfigFile::default();
    let resolved = config.resolve_with(Ok(SECOND), Ok(1024)).unwrap();
    assert_eq!(resolved.request_timeout, SECOND);
    assert_eq!(resolved.max_body_bytes, 1024);
    assert_eq!(
        config.resolve_with(Err("bad".to_owned()), Err("worse".to_owned())),
        Err(ConfigError::InvalidDuration("bad".to_owned()))
    );
    assert_eq!(
        config.resolve_with(Ok(1), Err("worse".to_owned())),
        Err(ConfigError::InvalidByteSize("worse".to_owned()))
    );
}

#[test]
fn durations_that_cannot_be_held_are_refused() {
    for text in [
        "18446744073709551615s 1000ms",
        "18446744073709551615s 1s",
        "18446744073709551615.5s 0.5s",
        "18446744073709551615s 1000.5ns",
    ] {
        assert_eq!(parse_duration(text).unwrap_err(), TOO_LONG);
    }
    assert_eq!(parse_duration("18446744073709551616s").unwrap_err(), TOO_LONG);
    assert!(parse_duration("1s 5").unwrap_err().contains("time unit needed"));
    assert_eq!(parse_duration("1s -").unwrap_err(), "expected number at 3");
    assert!(can_be_held(&vec![Some(DURATION_LIMIT - 2), Some(1)]));
    assert!(!can_be_held(&vec![Some(DURATION_LIMIT - 1), Some(1)]));
    assert!(!can_be_held(&vec![Some(DURATION_LIMIT - SECOND), None]));
    assert!(!can_be_held(&vec![Some(DURATION_LIMIT - 1), Some(1), None]));
    assert!(can_be_held(&vec![None, Some(DURATION_LIMIT)]));
    assert!(can_be_held(&vec![Some(DURATION_LIMIT - SECOND - 1), None]));
    assert_eq!(
        add_up(&vec![Some(2), Some(3), None, Some(4)]),
        (2, Some(5))
    );
    assert_eq!(add_up(&vec![Some(DURATION_LIMIT), None]), (1, None));
    assert!(!can_be_held(&vec![Some(u128::MAX), Some(u128::MAX)]));
}

fn read_directly(text: &str) -> Result<u128, String> {
    humantime::parse_duration(text)
        .map(|duration| duration.as_nanos())
        .map_err(|error| error.to_string())
}

#[test]
fn every_refusal_names_its_cause() {
    for text in [
        "5x 18446744073709551615s",
        "18446744073709551615s 5x",
        "18446744073709551615s x",
        "18446744073709551615s-",
        "18446744073709551615s 5s-",
        "18446744073709551615s 5s x",
        "18446744073709551615s 5s 5x",
        "18446744073709551615s 1000ms-",
        "18446744073709551615s 5",
        "18446744073709551614s 1s 5.x",
        "18446744073709551614s 999.5ms 7.3ns",
        "18446744073709551615s 5.5.5s",
        "18446744073709551614.5s 0.25s 0.1s 5y 1q",
        "1ns 18446744073709551615ns 18446744055262807541s 5x",
        "18446744073709551615s 3h 5x",
        "1h 30m 5 q",
        "1s\u{3000}2s\u{2003}",
        "1s2s3",
        "5µs 18446744073709551615s 6µ",
        ".5s",
        "s 1s",
        " ",
        "",
    ] {
        assert_eq!(parse_duration(text), read_directly(text), "{text}");
    }
    assert_eq!(
        parse_duration("18446744073709551615s -").unwrap_err(),
        "expected number at 22"
    );
}

#[test]
fn any_character_may_follow_a_unit() {
    for c in '\0'..'\u{3100}' {
        for text in [
            format!("18446744073709551615s 5s{c}"),
            format!("18446744073709551615s{c}x"),
        ] {
            assert_eq!(parse_duration(&text), read_directly(&text), "{text:?}");
        }
    }
}

#[test]
fn durations_and_sizes_are_read() {
    assert_eq!(parse_duration("270s"), Ok(270 * SECOND));
    assert_eq!(parse_duration("1h 30m"), Ok(5400 * SECOND));
    assert_eq!(parse_duration("15ms"), Ok(SECOND * 15 / 1000));
    assert!(parse_duration("").is_err());
    assert!(parse_duration("5").is_err());
    assert_eq!(
        parse_duration("18446744073709551615s"),
        Ok(18_446_744_073_709_551_615 * SECOND)
    );
    assert_eq!(
        parse_duration("365days 23h 59min 59s 999ms 999us 999ns"),
        Ok((365 * 86_400 + 86_399) * SECOND + 999_999_999)
    );
    assert_eq!(
        parse_duration("1000000000000ms 1000000000000ms"),
        Ok(2_000_000_000 * SECOND)
    );
    assert_eq!(
        parse_duration(" 18446744073709551614s 999.5ms500us1us "),
        Ok(18_446_744_073_709_551_615 * SECOND + 1_000)
    );
    assert_eq!(parse_byte_size("256KiB"), Ok(262_144));
    assert_eq!(parse_byte_size("1000"), Ok(1000));
    assert_eq!(parse_byte_size("1MB"), Ok(1_000_000));
    assert!(parse_byte_size("many").is_err());
}

#[test]
fn config_errors_have_messages() {
    for (error, message) in [
        (
            ConfigError::Missing("/c".to_owned()),
            "configuration file does not exist; run `nono-approval setup` first: /c",
        ),
        (
            ConfigError::UnsafeFile("/c".to_owned()),
            "configuration path must be a regular file owned by the current user: /c",
        ),
        (
            ConfigError::UnsafePermissions("/c".to_owned()),
            "configuration file permissions must be 0600: /c",
        ),
        (
            ConfigError::SchemaVersion(12),
            "unsupported configuration schema version 12",
        ),
        (
            ConfigError::NonLoopback,
            "webhook listener must use a loopback IP address",
        ),
        (
            ConfigError::ZeroLimit,
            "pending limits must be greater than zero",
        ),
        (
            ConfigError::PerSessionExceedsGlobal,
            "max_per_session must not exceed max_pending",
        ),
        (
            ConfigError::InvalidDuration("x".to_owned()),
            "invalid request_timeout: x",
        ),
        (
            ConfigError::InvalidByteSize("x".to_owned()),
            "invalid max_body: x",
        ),
        (
            ConfigError::RuntimePath(RuntimePathError::Unavailable),
            "could not resolve platform project directories",
        ),
        (ConfigError::TomlEncode("x".to_owned()), "x"),
    ] {
        assert_eq!(error.message(), message);
    }
}

fn entry(name: &str) -> CaptureEntry {
    CaptureEntry {
        path: format!("/state/debug-captures/{name}"),
        name: name.to_owned(),
        symlink: false,
        regular_file: true,
        uid: 1000,
        mode: 0o100600,
        created: Some(1_785_153_600 * SECOND),
        size_bytes: 12,
    }
}

#[test]
fn creates_lists_and_cleans_managed_capture() {
    let capture = DebugCapture::create("/state", 1_785_153_600 * SECOND).unwrap();
    assert_eq!(
        capture.status(),
        DebugCaptureStatus::Enabled {
            path: capture.path().to_owned()
        }
    );
    let name = capture
        .path()
        .strip_prefix("/state/debug-captures/")
        .unwrap()
        .to_owned();
    assert!(name.starts_with("2026-07-27T12-00-00Z-"));
    assert!(managed_name(&name));
    let captures = list_captures(vec![entry(&name)], 1000).unwrap();
    assert_eq!(captures.len(), 1);
    assert_eq!(captures[0].created_at, "2026-07-27T12:00:00Z");
    assert_eq!(clean_captures("/state", &captures), [capture.path()]);
}

#[test]
fn refuses_unmanaged_entries() {
    assert_eq!(
        list_captures(vec![entry("notes.txt")], 1000),
        Err(DebugCaptureError::UnsafeEntry(
            "/state/debug-captures/notes.txt".to_owned()
        ))
    );
    let good = "2026-07-27T12-00-00Z-0123456789abcdef.ndjson";
    for change in [
        |entry: &mut CaptureEntry| entry.symlink = true,
        |entry: &mut CaptureEntry| entry.regular_file = false,
        |entry: &mut CaptureEntry| entry.uid = 0,
        |entry: &mut CaptureEntry| entry.mode = 0o100644,
    ] {
        let mut bad = entry(good);
        change(&mut bad);
        assert!(list_captures(vec![entry(good), bad], 1000).is_err());
    }
}

#[test]
fn captures_are_listed_by_name() {
    let names = [
        "2026-07-29T00-00-00Z-0123456789abcdef.ndjson",
        "2026-07-27T00-00-00Z-fedcba9876543210.ndjson",
        "2026-07-27T00-00-00Z-0123456789abcdef.ndjson",
    ];
    let mut entries: Vec<CaptureEntry> = names.iter().map(|name| entry(name)).collect();
    entries[0].created = None;
    entries[1].created = Some(MAX_WRITTEN_TIME + 1);
    let captures = list_captures(entries, 1000).unwrap();
    let listed: Vec<&str> = captures.iter().map(|info| info.name.as_str()).collect();
    assert_eq!(listed, [names[2], names[1], names[0]]);
    assert_eq!(captures[2].created_at, "1970-01-01T00:00:00Z");
    assert_eq!(captures[1].created_at, "unknown");
    assert_eq!(capture_directory("/state"), "/state/debug-captures");
}

#[test]
fn managed_names_have_a_time_and_sixteen_digits() {
    assert!(managed_name("2026-0123456789abcdef.ndjson"));
    for name in [
        "-0123456789abcdef.ndjson",
        "2026-0123456789abcdeF.ndjson",
        "2026-0123456789abcde.ndjson",
        "2026_0123456789abcdef.ndjson",
        "x2026-0123456789abcdef.ndjson",
        "2026-0123456789abcdef.json",
        "",
    ] {
        assert!(!managed_name(name), "{name}");
    }
    assert_eq!(
        capture_file_name(0, "0123456789abcdef"),
        "1970-01-01T00-00-00Z-0123456789abcdef.ndjson"
    );
    assert_eq!(timestamp(1_500_000_000), "1970-01-01T00:00:01.5Z");
    assert_eq!(timestamp(MAX_WRITTEN_TIME + 1), "1970-01-01T00:00:00Z");
}

fn incoming() -> IncomingApproval {
    let request = KnownApprovalRequest::Capability {
        request_id: "r".to_owned(),
        path: "/work".to_owned(),
        access: AccessMode::Read,
        reason: None,
        child_pid: 1,
        session_id: "s".to_owned(),
    };
    let detail = build_detail(&request);
    IncomingApproval {
        claimed_backend: "test".to_owned(),
        raw_request: "{}".to_owned(),
        request,
        detail,
    }
}

#[test]
fn records_hold_what_happened() {
    let capture = DebugCapture::create("/state", 0).unwrap();
    let id = ApprovalId::parse("appr_0123456789abcdef").unwrap();
    let received = capture
        .record_received(&id, &incoming(), "2026-07-27T12:04:30Z")
        .unwrap();
    assert_eq!(received.event(), "request_received");
    assert!(matches!(
        received,
        CaptureRecord::RequestReceived { deadline, claimed_backend, .. }
            if deadline == "2026-07-27T12:04:30Z" && claimed_backend == "test"
    ));
    let completion = Completion {
        approval_id: id,
        state: TerminalState::Denied,
        source: DecisionSource::ControlSessionRule,
        decision: Some(WebhookDecision::Denied {
            reason: "no\u{1b}[31m\n".to_owned(),
        }),
        wait_duration: 1_500_999_999,
    };
    let completed = capture.record_completed(&completion).unwrap();
    assert_eq!(completed.event(), "request_completed");
    let CaptureRecord::RequestCompleted {
        decision_source,
        reason,
        wait_duration_ms,
        ..
    } = completed
    else {
        panic!("expected a completion");
    };
    assert_eq!(decision_source.as_str(), "control_session_rule");
    assert_eq!(reason.as_deref(), Some("no\\n"));
    assert_eq!(wait_duration_ms, 1500);
    assert_eq!(DELIVERY_OUTCOME, "not_observed");
    assert_eq!(CAPTURE_SCHEMA_VERSION, 1);
    for (source, name) in [
        (DecisionSource::Control, "control"),
        (DecisionSource::Deadline, "deadline"),
        (DecisionSource::Shutdown, "shutdown"),
        (DecisionSource::Disconnect, "disconnect"),
    ] {
        assert_eq!(source.as_str(), name);
    }
}

#[test]
fn the_first_failure_ends_a_capture() {
    let mut capture = DebugCapture::create("/state", 0).unwrap();
    assert!(capture.appended(AppendOutcome::Written).is_none());
    assert_eq!(
        capture.appended(AppendOutcome::NotWritten("StorageFull".to_owned())),
        Some("debug capture failed and has been disabled: io:StorageFull".to_owned())
    );
    assert_eq!(
        capture.status(),
        DebugCaptureStatus::Failed {
            error_category: "io:StorageFull".to_owned()
        }
    );
    assert!(capture
        .appended(AppendOutcome::NotSerialized("late".to_owned()))
        .is_none());
    assert_eq!(
        capture.status(),
        DebugCaptureStatus::Failed {
            error_category: "io:StorageFull".to_owned()
        }
    );
    let rule = RuleDraft {
        action: RuleAction::Allow,
        path: "/work".to_owned(),
        scope: RuleScope::Path,
        access: AccessMode::Read,
    };
    assert!(capture
        .record_policy_decision(&incoming(), &rule, &WebhookDecision::Granted)
        .is_none());
    let mut other = DebugCapture::create("/state", 0).unwrap();
    assert!(other
        .appended(AppendOutcome::NotSerialized("deep".to_owned()))
        .is_none());
    assert_eq!(
        other.status().clone(),
        DebugCaptureStatus::Failed {
            error_category: "serialization:deep".to_owned()
        }
    );
}

#[test]
fn capture_errors_have_messages() {
    for (error, message) in [
        (
            DebugCaptureError::UnsafeEntry("/x".to_owned()),
            "unsafe entry in managed capture directory: /x",
        ),
        (
            DebugCaptureError::Random("x".to_owned()),
            "operating-system randomness failed: x",
        ),
        (
            DebugCaptureError::RuntimePath(RuntimePathError::Symlink("/x".to_owned())),
            "runtime path must not be a symlink: /x",
        ),
        (DebugCaptureError::Io("x".to_owned()), "x"),
    ] {
        assert_eq!(error.message(), message);
    }
}

fn judged(stdout: &str) -> Result<(), ValidationError> {
    validate_profile(ProbeOutput::Finished {
        stdout: stdout.to_owned(),
        stderr: " \n went wrong\u{a0}\n".to_owned(),
    })
}

#[test]
fn only_refused_connections_pass() {
    let report = |connection: ProbeConnection| {
        judged(&format!("{PROBE_STARTED}\n{}\n", run_probe(&connection)))
    };
    let failed = |errno: Option<i32>| ProbeConnection::Failed {
        errno,
        kind: "Other".to_owned(),
    };
    assert!(report(failed(Some(1))).is_ok());
    assert!(report(failed(Some(13))).is_ok());
    assert_eq!(
        report(failed(Some(2))),
        Err(ValidationError::Inconclusive("error 2".to_owned()))
    );
    assert_eq!(
        report(failed(Some(-5))),
        Err(ValidationError::Inconclusive("error -5".to_owned()))
    );
    assert_eq!(
        report(failed(None)),
        Err(ValidationError::Inconclusive("error kind:Other".to_owned()))
    );
    assert_eq!(
        report(ProbeConnection::Connected { answered: true }),
        Err(ValidationError::Reachable)
    );
    assert_eq!(
        report(ProbeConnection::Connected { answered: false }),
        Err(ValidationError::Inconclusive("error http".to_owned()))
    );
}

#[test]
fn probes_must_start_and_report() {
    assert_eq!(
        judged("nothing"),
        Err(ValidationError::NonoFailed("went wrong".to_owned()))
    );
    assert_eq!(
        judged("hook\r\nnono-approval-probe-v1 started\r\n"),
        Err(ValidationError::InvalidProtocol)
    );
    assert!(judged(
        "nono-approval-probe-v1 started\r\nnono-approval-probe-v1 result denied 13\r\n"
    )
    .is_ok());
    assert_eq!(
        judged("nono-approval-probe-v1 started\nnono-approval-probe-v1 result denied 1\r"),
        Err(ValidationError::Inconclusive("denied 1\r".to_owned()))
    );
    assert_eq!(
        validate_profile(ProbeOutput::TimedOut),
        Err(ValidationError::Timeout)
    );
    assert_eq!(
        validate_profile(ProbeOutput::NotRun("gone".to_owned())),
        Err(ValidationError::Io("gone".to_owned()))
    );
}

#[test]
fn validation_errors_have_messages() {
    for (error, message) in [
        (ValidationError::Timeout, "nono profile validation timed out"),
        (
            ValidationError::NonoFailed("x".to_owned()),
            "nono failed to start the validation probe: x",
        ),
        (
            ValidationError::InvalidProtocol,
            "validation probe returned an invalid protocol",
        ),
        (
            ValidationError::Reachable,
            "control socket was reachable from the sandbox",
        ),
        (
            ValidationError::Inconclusive("x".to_owned()),
            "control socket denial was inconclusive: x",
        ),
        (ValidationError::Io("x".to_owned()), "x"),
    ] {
        assert_eq!(error.message(), message);
    }
}

#[test]
fn only_the_owner_may_control() {
    assert!(verify_owner(1000, 1000).is_ok());
    assert_eq!(
        verify_owner(0, 1000),
        Err("control peer UID does not match daemon owner")
    );
}
