use nono_approval::display::{
    build_detail, sanitize, show_events, summary, truncate_summary, TerminalEvent, ELLIPSIS,
    MAX_DETAIL_BYTES,
};
use nono_approval::protocol::{AccessMode, KnownApprovalRequest, NetworkProtocol, SourceKind};

#[test]
fn removes_terminal_escape_sequences() {
    assert_eq!(
        sanitize("safe\u{1b}]8;;https://evil.invalid\u{7}link\u{1b}]8;;\u{7}"),
        "safelink"
    );
    assert_eq!(sanitize("a\n\tb\u{7f}"), "a\\n\\tb\\u{7f}");
}

#[test]
fn truncates_only_navigation_summaries() {
    assert_eq!(truncate_summary("abcdef", 4), "abc…");
    assert_eq!(truncate_summary("abc", 4), "abc");
}

#[test]
fn sanitizing_twice_changes_nothing() {
    for text in [
        "plain",
        "\u{1b}[31mred\u{1b}[0m",
        "tab\tnul\0bell\u{7}",
        "中文 é \u{85}",
        "\u{1b}Pdevice\u{1b}\\after",
        "broken\u{1b}",
        "\u{9b}31mcsi",
    ] {
        let once = sanitize(text);
        assert_eq!(sanitize(&once), once);
        assert!(!once.chars().any(char::is_control), "{once:?}");
    }
    assert_eq!(sanitize("\u{1b}[31mred\u{1b}[0m"), "red");
    assert_eq!(sanitize("中文"), "中文");
}

#[test]
fn truncation_keeps_a_prefix_that_fits() {
    assert_eq!(truncate_summary("abcdef", 0), "");
    assert_eq!(truncate_summary("abcdef", 1), "…");
    assert_eq!(truncate_summary("abcdef", 6), "abcdef");
    assert_eq!(truncate_summary("中文字", 5), "中文…");
    assert_eq!(truncate_summary("中文字", 4), "中…");
    assert_eq!(truncate_summary("中文字", 6), "中文字");
}

fn command(args: &[&str]) -> KnownApprovalRequest {
    KnownApprovalRequest::Command {
        request_id: "req-1".to_owned(),
        command: "git".to_owned(),
        args: args.iter().map(|arg| (*arg).to_owned()).collect(),
        caller: "session".to_owned(),
        intercept_rule: "approve".to_owned(),
        reason: None,
        child_pid: 42,
        session_id: "sess-1".to_owned(),
    }
}

#[test]
fn commands_are_quoted_for_a_shell() {
    assert_eq!(summary(&command(&[])), "git");
    assert_eq!(summary(&command(&["git", "status"])), "git status");
    assert_eq!(summary(&command(&["echo", "two words"])), "echo 'two words'");
    assert_eq!(summary(&command(&["echo", ""])), "echo ''");
    assert_eq!(summary(&command(&["echo", "it's"])), "echo \"it's\"");
    assert_eq!(summary(&command(&["a\nb"])), "\"a\\\\nb\"");
}

#[test]
fn details_show_the_fields_of_every_kind() {
    let detail = build_detail(&command(&["git", "push"]));
    assert_eq!(detail.capability_type, "command");
    assert_eq!(detail.summary, "git push");
    assert_eq!(detail.source_kind, SourceKind::ToolSandbox);
    let fields: Vec<(&str, &str)> = detail
        .fields
        .iter()
        .map(|field| (field.label.as_str(), field.value.as_str()))
        .collect();
    assert_eq!(
        fields,
        [
            ("Command", "git push"),
            ("Requested by", "Tool Sandbox"),
            ("Caller", "session"),
            ("Rule", "approve"),
        ]
    );
    let debug: Vec<(&str, &str)> = detail
        .debug_fields
        .iter()
        .map(|field| (field.label.as_str(), field.value.as_str()))
        .collect();
    assert_eq!(
        debug,
        [("Request ID", "req-1"), ("Session ID", "sess-1"), ("Child PID", "42")]
    );

    let endpoint = KnownApprovalRequest::Endpoint {
        request_id: "r".to_owned(),
        route_id: "github".to_owned(),
        upstream: "https://api.github.com".to_owned(),
        method: "POST".to_owned(),
        path: "/repos".to_owned(),
        rule_label: "approve".to_owned(),
        reason: Some("because".to_owned()),
        child_pid: 0,
        session_id: "proxy".to_owned(),
    };
    assert_eq!(summary(&endpoint), "POST /repos");
    let fields = build_detail(&endpoint).fields;
    assert_eq!(fields.len(), 5);
    assert_eq!(fields[0].value, "POST /repos");
    assert_eq!(fields[4].label, "Reason");
    assert_eq!(fields[4].value, "because");

    let capability = KnownApprovalRequest::Capability {
        request_id: "r".to_owned(),
        path: "/tmp/\u{1b}[31mdemo".to_owned(),
        access: AccessMode::Write,
        reason: Some(String::new()),
        child_pid: 1,
        session_id: "s".to_owned(),
    };
    assert_eq!(summary(&capability), "write /tmp/demo");
    assert_eq!(build_detail(&capability).fields.len(), 2);

    let network = KnownApprovalRequest::Network {
        request_id: "r".to_owned(),
        host: "example.com".to_owned(),
        port: 443,
        protocol: NetworkProtocol::Tcp,
        resolved_ips: vec!["192.0.2.1".to_owned(), "192.0.2.2".to_owned()],
        reason: None,
        child_pid: 1,
        session_id: "s".to_owned(),
    };
    assert_eq!(summary(&network), "tcp example.com:443");
    let fields = build_detail(&network).fields;
    assert_eq!(fields[0].value, "example.com:443");
    assert_eq!(fields[1].value, "tcp");
    assert_eq!(fields[2].value, "192.0.2.1, 192.0.2.2");
}

#[test]
fn the_length_of_a_detail_is_that_of_its_json() {
    let request = KnownApprovalRequest::Capability {
        request_id: "r".to_owned(),
        path: "/a\"b\\c".to_owned(),
        access: AccessMode::Read,
        reason: None,
        child_pid: 1,
        session_id: "s".to_owned(),
    };
    let detail = build_detail(&request);
    let json = concat_json(&[
        "{\"capability_type\":\"capability\",\"summary\":\"read /a\\\"b\\\\c\",",
        "\"source_kind\":\"capability\",\"fields\":[",
        "{\"label\":\"Path\",\"value\":\"/a\\\"b\\\\c\"},",
        "{\"label\":\"Access\",\"value\":\"read\"}],\"debug_fields\":[",
        "{\"label\":\"Request ID\",\"value\":\"r\"},",
        "{\"label\":\"Session ID\",\"value\":\"s\"},",
        "{\"label\":\"Child PID\",\"value\":\"1\"}]}",
    ]);
    assert_eq!(detail.serialized_len(), json.len());
    assert_eq!(MAX_DETAIL_BYTES, 1024 * 1024);
}

fn concat_json(parts: &[&str]) -> String {
    parts.concat()
}

#[test]
fn events_are_shown_visibly() {
    let events = vec![
        TerminalEvent::Print('a'),
        TerminalEvent::Execute(10),
        TerminalEvent::Execute(7),
        TerminalEvent::Print('\u{7f}'),
        TerminalEvent::Print('ü'),
    ];
    assert_eq!(show_events(&events), "a\\n\\x07\\u{7f}ü");
}

#[test]
fn cut_summaries_fit() {
    assert_eq!(unicode_width::UnicodeWidthChar::width(ELLIPSIS), Some(1));
    for text in ["abcdef", "界界界界", "a界b界c", "e\u{301}e\u{301}e\u{301}"] {
        for width in 0..10 {
            let cut = truncate_summary(text, width);
            let columns: usize = cut
                .chars()
                .map(|c| unicode_width::UnicodeWidthChar::width(c).unwrap_or(0))
                .sum();
            assert!(columns <= width, "{cut} at {width}");
        }
    }
}
