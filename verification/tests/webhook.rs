use nono_approval::broker::{
    Broker, BrokerConfig, BrokerError, IngressOutcome, ShowApproval, TerminalState,
};
use nono_approval::clock::{Moment, SECOND};
use nono_approval::control::{
    handle, route, ClientBody, ClientRequest, ControlBody, ControlClient, ControlContent,
    ControlContext, ControlReply, DebugCaptureStatus, DecisionRequest, SessionRuleRequest,
};
use nono_approval::debug_capture::{CaptureRecord, DebugCapture};
use nono_approval::display::MAX_DETAIL_BYTES;
use nono_approval::policy::{RuleAction, RuleScope};
use nono_approval::protocol::{
    AccessMode, Envelope, KnownApprovalRequest, NetworkProtocol, WebhookDecision,
    DEFAULT_MAX_BODY_BYTES,
};
use nono_approval::webhook::{
    read_limited, ReadBodyError, WebhookBody, WebhookContext, WebhookHead, WebhookOutcome,
    WEBHOOK_PATH,
};
use serde_json::Value;

fn text_of(value: &Value, name: &str) -> Result<String, String> {
    value
        .get(name)
        .and_then(Value::as_str)
        .map(str::to_owned)
        .ok_or_else(|| format!("missing field `{name}`"))
}

fn optional_text(value: &Value, name: &str) -> Result<Option<String>, String> {
    match value.get(name) {
        None | Some(Value::Null) => Ok(None),
        Some(Value::String(text)) => Ok(Some(text.clone())),
        Some(_) => Err(format!("invalid type for `{name}`")),
    }
}

fn number_of(value: &Value, name: &str) -> Result<u64, String> {
    value
        .get(name)
        .and_then(Value::as_u64)
        .ok_or_else(|| format!("missing field `{name}`"))
}

fn texts_of(value: &Value, name: &str) -> Result<Vec<String>, String> {
    value
        .get(name)
        .and_then(Value::as_array)
        .ok_or_else(|| format!("missing field `{name}`"))?
        .iter()
        .map(|item| {
            item.as_str()
                .map(str::to_owned)
                .ok_or_else(|| format!("invalid type in `{name}`"))
        })
        .collect()
}

fn known(value: &Value) -> Result<KnownApprovalRequest, String> {
    let request_id = text_of(value, "request_id")?;
    let session_id = text_of(value, "session_id")?;
    let reason = optional_text(value, "reason")?;
    let child_pid = u32::try_from(number_of(value, "child_pid")?).map_err(|e| e.to_string())?;
    match text_of(value, "capability_type")?.as_str() {
        "command" => Ok(KnownApprovalRequest::Command {
            request_id,
            command: text_of(value, "command")?,
            args: texts_of(value, "args")?,
            caller: text_of(value, "caller")?,
            intercept_rule: text_of(value, "intercept_rule")?,
            reason,
            child_pid,
            session_id,
        }),
        "endpoint" => Ok(KnownApprovalRequest::Endpoint {
            request_id,
            route_id: text_of(value, "route_id")?,
            upstream: text_of(value, "upstream")?,
            method: text_of(value, "method")?,
            path: text_of(value, "path")?,
            rule_label: text_of(value, "rule_label")?,
            reason,
            child_pid,
            session_id,
        }),
        "capability" => Ok(KnownApprovalRequest::Capability {
            request_id,
            path: text_of(value, "path")?,
            access: match text_of(value, "access")?.as_str() {
                "Read" => AccessMode::Read,
                "Write" => AccessMode::Write,
                "ReadWrite" => AccessMode::ReadWrite,
                other => return Err(format!("unknown variant `{other}`")),
            },
            reason,
            child_pid,
            session_id,
        }),
        "network" => Ok(KnownApprovalRequest::Network {
            request_id,
            host: text_of(value, "host")?,
            port: u16::try_from(number_of(value, "port")?).map_err(|e| e.to_string())?,
            protocol: match text_of(value, "protocol")?.as_str() {
                "tcp" => NetworkProtocol::Tcp,
                "udp" => NetworkProtocol::Udp,
                other => return Err(format!("unknown variant `{other}`")),
            },
            resolved_ips: texts_of(value, "resolved_ips")?,
            reason,
            child_pid,
            session_id,
        }),
        other => Err(format!("unknown variant `{other}`")),
    }
}

fn decode(body: &[u8]) -> Result<Envelope, String> {
    let value: Value = serde_json::from_slice(body).map_err(|error| error.to_string())?;
    let backend = text_of(&value, "backend")?;
    let request = value.get("request").ok_or("missing field `request`")?;
    Ok(Envelope {
        backend,
        raw_request: request.to_string(),
        request: known(request),
    })
}

fn at(seconds: u128) -> Moment {
    Moment {
        monotonic: seconds * SECOND,
        wall: (1_785_000_000 + seconds) * SECOND,
    }
}

fn context() -> WebhookContext {
    WebhookContext {
        max_body_bytes: DEFAULT_MAX_BODY_BYTES,
        max_detail_bytes: MAX_DETAIL_BYTES,
    }
}

fn head() -> WebhookHead {
    WebhookHead {
        is_post: true,
        path: WEBHOOK_PATH.to_owned(),
        content_type: Some("application/json".to_owned()),
    }
}

fn body(id: &str, path: &str, access: &str) -> String {
    format!(
        r#"{{"backend":"test","request":{{"capability_type":"capability","request_id":"{id}","session_id":"session-{id}","child_pid":1,"path":"{path}","access":"{access}","reason":null}}}}"#
    )
}

fn command_body(request_id: &str) -> String {
    format!(
        r#"{{"backend":"local-broker","request":{{"capability_type":"command","request_id":"{request_id}","command":"date","args":["date"],"caller":"session","intercept_rule":"approve","reason":null,"child_pid":42,"session_id":"session-bridge"}}}}"#
    )
}

fn read(text: &str) -> Result<WebhookBody, ReadBodyError> {
    Ok(WebhookBody {
        bytes: text.as_bytes().to_vec(),
        envelope: decode(text.as_bytes()),
    })
}

fn post(broker: &mut Broker, capture: Option<&DebugCapture>, text: &str, now: Moment) -> WebhookOutcome {
    nono_approval::webhook::handle(context(), &head(), read(text), capture, broker, now)
}

fn status_of(outcome: &WebhookOutcome) -> u16 {
    match outcome {
        WebhookOutcome::Rejected(rejection) => rejection.status,
        _ => 200,
    }
}

fn error_of(outcome: &WebhookOutcome) -> Option<&'static str> {
    match outcome {
        WebhookOutcome::Rejected(rejection) => rejection.error,
        _ => None,
    }
}

fn control_context() -> ControlContext {
    ControlContext {
        started_at: 0,
        webhook_listen: "127.0.0.1:0".to_owned(),
        max_pending: 1,
        max_per_session: 1,
        debug_capture: DebugCaptureStatus::Disabled,
    }
}

fn ask(broker: &mut Broker, request: ClientRequest, now: Moment) -> ControlReply {
    let route = route(request.method, &request.path, request.query.as_deref());
    let content = match request.body {
        ClientBody::Empty => ControlContent::Malformed,
        ClientBody::Decision(decision) => ControlContent::Decision(decision),
        ClientBody::Rule(rule) => ControlContent::Rule(rule),
        ClientBody::Rules(rules) => ControlContent::Rules(rules),
    };
    let body = ControlBody {
        length: Some(100),
        content,
    };
    handle(route, body, &control_context(), broker, now)
}

fn small_broker() -> Broker {
    Broker::new(BrokerConfig {
        request_timeout: 5 * SECOND,
        max_pending: 1,
        max_per_session: 1,
        ..BrokerConfig::default()
    })
}

#[test]
fn webhook_path_is_fixed() {
    assert_eq!(WEBHOOK_PATH, "/v1/webhooks/approval");
}

#[test]
fn bridges_webhook_to_exact_control_decision() {
    let mut broker = Broker::new(BrokerConfig {
        request_timeout: 2 * SECOND,
        ..BrokerConfig::default()
    });
    let WebhookOutcome::Waiting { submission, record } =
        post(&mut broker, None, &command_body("req-bridge"), at(0))
    else {
        panic!("expected a wait");
    };
    assert!(record.is_none());
    let client = ControlClient::new("/run/control.sock");
    let ControlReply::List(list) = ask(&mut broker, client.list(), at(0)) else {
        panic!("expected the queue");
    };
    assert_eq!(list.approvals.len(), 1);
    let id = list.approvals[0].approval_id.clone();
    assert_eq!(id, submission.approval_id);
    let ControlReply::Decided(response) =
        ask(&mut broker, client.decide(&id, &DecisionRequest::Granted), at(1))
    else {
        panic!("expected a decision");
    };
    assert_eq!(response.state, TerminalState::Granted);
    let told = broker.take_completions();
    assert_eq!(told[0].approval_id, id);
    assert_eq!(told[0].decision, Some(WebhookDecision::Granted));
    assert!(matches!(
        broker.show(&id, at(1)).unwrap(),
        ShowApproval::Completed(completed) if completed.state == TerminalState::Granted
    ));
}

#[test]
fn refuses_other_methods_paths_and_content_types() {
    let mut broker = Broker::new(BrokerConfig::default());
    let mut send = |head: WebhookHead| {
        let outcome = nono_approval::webhook::handle(
            context(),
            &head,
            read(&command_body("r")),
            None,
            &mut broker,
            at(0),
        );
        (status_of(&outcome), error_of(&outcome))
    };
    assert_eq!(
        send(WebhookHead {
            is_post: false,
            ..head()
        }),
        (405, None)
    );
    assert_eq!(
        send(WebhookHead {
            path: "/other".to_owned(),
            ..head()
        }),
        (404, None)
    );
    for content_type in [None, Some("text/plain"), Some("application/json; charset=utf-8")] {
        assert_eq!(
            send(WebhookHead {
                content_type: content_type.map(str::to_owned),
                ..head()
            }),
            (415, Some("content-type must be application/json"))
        );
    }
    assert_eq!(
        send(WebhookHead {
            content_type: Some("Application/JSON".to_owned()),
            ..head()
        })
        .0,
        200
    );
    assert_eq!(broker.pending_count(at(0)), 1);
}

#[test]
fn refuses_bodies_that_are_too_large_or_invalid() {
    let mut broker = Broker::new(BrokerConfig::default());
    for (failure, expected) in [
        (ReadBodyError::TooLarge, (413, Some("request body is too large"))),
        (ReadBodyError::Transport, (400, Some("invalid webhook request"))),
    ] {
        let outcome = nono_approval::webhook::handle(
            context(),
            &head(),
            Err(failure),
            None,
            &mut broker,
            at(0),
        );
        assert_eq!((status_of(&outcome), error_of(&outcome)), expected);
    }
    let text = command_body("r");
    let outcome = nono_approval::webhook::handle(
        WebhookContext {
            max_body_bytes: 10,
            ..context()
        },
        &head(),
        read(&text),
        None,
        &mut broker,
        at(0),
    );
    assert_eq!(status_of(&outcome), 413);
    let outcome = nono_approval::webhook::handle(
        WebhookContext {
            max_detail_bytes: 10,
            ..context()
        },
        &head(),
        read(&text),
        None,
        &mut broker,
        at(0),
    );
    assert_eq!(
        (status_of(&outcome), error_of(&outcome)),
        (422, Some("approval detail is too large"))
    );
    let outcome = post(&mut broker, None, "not json", at(0));
    assert_eq!(
        (status_of(&outcome), error_of(&outcome)),
        (400, Some("invalid webhook request"))
    );
    assert_eq!(broker.pending_count(at(0)), 0);
}

#[test]
fn refuses_duplicates_and_full_queues() {
    let mut broker = Broker::new(BrokerConfig {
        max_pending: 2,
        max_per_session: 1,
        ..BrokerConfig::default()
    });
    assert_eq!(status_of(&post(&mut broker, None, &command_body("r1"), at(0))), 200);
    let again = post(&mut broker, None, &command_body("r1"), at(0));
    assert_eq!(
        (status_of(&again), error_of(&again)),
        (409, Some("duplicate approval request"))
    );
    let session = post(&mut broker, None, &command_body("r2"), at(0));
    assert_eq!(
        (status_of(&session), error_of(&session)),
        (429, Some("per-session pending limit reached"))
    );
    assert_eq!(status_of(&post(&mut broker, None, &body("a", "/a", "Read"), at(0))), 200);
    let full = post(&mut broker, None, &body("b", "/b", "Read"), at(0));
    assert_eq!(
        (status_of(&full), error_of(&full)),
        (503, Some("global pending limit reached"))
    );
}

#[test]
fn bodies_are_read_up_to_the_limit() {
    let mut bytes = Vec::new();
    assert_eq!(read_limited(&mut bytes, b"abc", 5), Ok(()));
    assert_eq!(read_limited(&mut bytes, b"de", 5), Ok(()));
    assert_eq!(bytes, b"abcde");
    assert_eq!(
        read_limited(&mut bytes, b"f", 5),
        Err(ReadBodyError::TooLarge)
    );
    assert_eq!(bytes, b"abcde");
}

#[test]
fn cli_rules_bypass_capacity_and_capture_hits_without_approval_ids() {
    let mut broker = small_broker();
    let capture = DebugCapture::create("/state", at(0).wall).unwrap();
    let client = ControlClient::new("/run/control.sock");
    let WebhookOutcome::Waiting { submission, record } =
        post(&mut broker, Some(&capture), &body("seed", "/work", "Read"), at(0))
    else {
        panic!("expected a wait");
    };
    assert!(matches!(record, Some(CaptureRecord::RequestReceived { .. })));
    let remembered = ask(
        &mut broker,
        client.remember(
            &submission.approval_id,
            SessionRuleRequest {
                action: RuleAction::Allow,
                scope: RuleScope::Directory,
                reason: None,
                path: None,
            },
        ),
        at(0),
    );
    assert_eq!(remembered.status(), 200);
    assert_eq!(
        broker.take_completions()[0].decision,
        Some(WebhookDecision::Granted)
    );
    assert!(matches!(
        broker.show(&submission.approval_id, at(0)).unwrap(),
        ShowApproval::Completed(done) if done.state == TerminalState::Granted
    ));
    let WebhookOutcome::Waiting { submission: pending, .. } =
        post(&mut broker, Some(&capture), &body("other", "/other", "Read"), at(0))
    else {
        panic!("expected a wait");
    };
    let ControlReply::Status(status) = ask(&mut broker, client.status(), at(0)) else {
        panic!("expected the status");
    };
    assert_eq!(status.session_rule_count, 1);
    let WebhookOutcome::Answered { decision, record } =
        post(&mut broker, Some(&capture), &body("hit", "/work/sub/file", "Read"), at(0))
    else {
        panic!("expected an answer");
    };
    assert_eq!(decision, WebhookDecision::Granted);
    let Some(record) = record else {
        panic!("expected a record");
    };
    assert_eq!(record.event(), "policy_decision");
    let CaptureRecord::PolicyDecision { rule, .. } = record else {
        panic!("expected a policy decision");
    };
    assert_eq!(rule.access, AccessMode::Read);
    // Both path boundary and exact access failures must still encounter pending capacity.
    for (path, access) in [
        ("/workspace", "Read"),
        ("/work/file", "ReadWrite"),
        ("/work/../secret", "Read"),
    ] {
        assert_eq!(
            status_of(&post(&mut broker, Some(&capture), &body("miss", path, access), at(0))),
            503
        );
    }
    let invalid = body("invalid", "/work", "Read").replace("session-invalid", "");
    assert_eq!(status_of(&post(&mut broker, Some(&capture), &invalid, at(0))), 400);
    assert_eq!(broker.pending_count(at(0)), 1);
    let ControlReply::Cleared(count) = ask(&mut broker, client.clear_session_rules(), at(0)) else {
        panic!("expected a count");
    };
    assert_eq!(count, 1);
    assert_eq!(
        status_of(&post(&mut broker, Some(&capture), &body("after-clear", "/work/file", "Read"), at(0))),
        503
    );
    assert_eq!(broker.pending_count(at(0)), 1);
    broker
        .decide(&pending.approval_id, WebhookDecision::Granted, at(0))
        .unwrap();
}

#[test]
fn deny_cli_preserves_reason_and_records_automatic_denials() {
    let mut broker = small_broker();
    let client = ControlClient::new("/run/control.sock");
    let WebhookOutcome::Waiting { submission, .. } =
        post(&mut broker, None, &body("seed", "/config", "Read"), at(0))
    else {
        panic!("expected a wait");
    };
    let reply = ask(
        &mut broker,
        client.remember(
            &submission.approval_id,
            SessionRuleRequest {
                action: RuleAction::Deny,
                scope: RuleScope::Path,
                reason: Some("private".to_owned()),
                path: None,
            },
        ),
        at(0),
    );
    assert_eq!(reply.status(), 200);
    assert_eq!(
        broker.take_completions()[0].decision,
        Some(WebhookDecision::Denied {
            reason: "private".to_owned()
        })
    );
    let WebhookOutcome::Answered { decision, .. } =
        post(&mut broker, None, &body("deny-hit", "/config", "Read"), at(0))
    else {
        panic!("expected an answer");
    };
    assert!(matches!(
        decision,
        WebhookDecision::Denied { reason } if reason.contains("session rule")
    ));
    let WebhookOutcome::Waiting { submission: child, .. } =
        post(&mut broker, None, &body("child", "/config/known", "Read"), at(0))
    else {
        panic!("exact rule must not match children");
    };
    let reply = ask(
        &mut broker,
        client.remember(
            &child.approval_id,
            SessionRuleRequest {
                action: RuleAction::Deny,
                scope: RuleScope::Directory,
                reason: None,
                path: None,
            },
        ),
        at(0),
    );
    assert_eq!(reply.status(), 200);
    let WebhookOutcome::Answered { decision, .. } =
        post(&mut broker, None, &body("tree-hit", "/config/known/sub/file", "Read"), at(0))
    else {
        panic!("expected an answer");
    };
    assert!(matches!(decision, WebhookDecision::Denied { .. }));
}

#[test]
fn cli_edited_tree_path_covers_source_and_keeps_exact_access() {
    let mut broker = small_broker();
    let client = ControlClient::new("/run/control.sock");
    let WebhookOutcome::Waiting { submission, .. } = post(
        &mut broker,
        None,
        &body("project-file", "/path/to/project/src/main.rs", "Read"),
        at(0),
    ) else {
        panic!("expected a wait");
    };
    let rule = |scope: RuleScope, path: &str| SessionRuleRequest {
        action: RuleAction::Allow,
        scope,
        reason: None,
        path: Some(path.to_owned()),
    };
    for refused in [
        rule(RuleScope::Directory, "/unrelated"),
        rule(RuleScope::Path, "/path/to/project"),
        rule(RuleScope::Directory, "/path/../"),
        rule(RuleScope::Directory, "relative"),
        rule(RuleScope::Directory, "/path/*"),
    ] {
        let reply = ask(&mut broker, client.remember(&submission.approval_id, refused), at(0));
        assert_eq!(reply.status(), 400);
        assert_eq!(broker.session_rule_count(), 0);
        assert!(matches!(
            broker.show(&submission.approval_id, at(0)).unwrap(),
            ShowApproval::Pending(_)
        ));
    }
    let reply = ask(
        &mut broker,
        client.remember(
            &submission.approval_id,
            rule(RuleScope::Directory, "/path/to/project"),
        ),
        at(0),
    );
    assert_eq!(reply.status(), 200);
    assert_eq!(
        broker.take_completions()[0].decision,
        Some(WebhookDecision::Granted)
    );
    assert!(matches!(
        post(&mut broker, None, &body("other", "/path/to/project/tests/test.rs", "Read"), at(0)),
        WebhookOutcome::Answered { decision: WebhookDecision::Granted, .. }
    ));
    assert_eq!(
        status_of(&post(&mut broker, None, &body("capacity", "/other", "Read"), at(0))),
        200
    );
    for (path, access) in [
        ("/path/to/project-other", "Read"),
        ("/path/to/project/file", "ReadWrite"),
    ] {
        assert_eq!(
            status_of(&post(&mut broker, None, &body("miss", path, access), at(0))),
            503
        );
    }
    assert_eq!(broker.pending_count(at(0)), 1);
}

#[test]
fn edited_path_cannot_be_installed_from_stale_source_and_exact_allow_is_repeatable() {
    let mut broker = small_broker();
    let client = ControlClient::new("/run/control.sock");
    let WebhookOutcome::Waiting { submission, .. } =
        post(&mut broker, None, &body("exact", "/work/file", "Read"), at(0))
    else {
        panic!("expected a wait");
    };
    let exact = SessionRuleRequest {
        action: RuleAction::Allow,
        scope: RuleScope::Path,
        reason: None,
        path: None,
    };
    assert_eq!(
        ask(&mut broker, client.remember(&submission.approval_id, exact), at(0)).status(),
        200
    );
    assert!(matches!(
        post(&mut broker, None, &body("same-file", "/work/file", "Read"), at(0)),
        WebhookOutcome::Answered { decision: WebhookDecision::Granted, .. }
    ));
    let edited = SessionRuleRequest {
        action: RuleAction::Allow,
        scope: RuleScope::Directory,
        reason: None,
        path: Some("/work".to_owned()),
    };
    assert_eq!(
        ask(&mut broker, client.remember(&submission.approval_id, edited), at(0)).status(),
        409
    );
    assert_eq!(broker.session_rule_count(), 1);
    assert!(matches!(
        post(&mut broker, None, &body("other", "/work/other", "Read"), at(0)),
        WebhookOutcome::Waiting { .. }
    ));
}

#[test]
fn rule_matched_webhook_repeats_conflict_instead_of_regranting() {
    let mut broker = small_broker();
    let client = ControlClient::new("/run/control.sock");
    let WebhookOutcome::Waiting { submission, .. } =
        post(&mut broker, None, &body("exact", "/work/file", "Read"), at(0))
    else {
        panic!("expected a wait");
    };
    let exact = SessionRuleRequest {
        action: RuleAction::Allow,
        scope: RuleScope::Path,
        reason: None,
        path: None,
    };
    assert_eq!(
        ask(&mut broker, client.remember(&submission.approval_id, exact), at(0)).status(),
        200
    );
    let repeated = body("dup", "/work/file", "Read");
    assert!(matches!(
        post(&mut broker, None, &repeated, at(0)),
        WebhookOutcome::Answered { decision: WebhookDecision::Granted, .. }
    ));
    let second = post(&mut broker, None, &repeated, at(0));
    assert_eq!(status_of(&second), 409);
    assert_eq!(error_of(&second), Some("duplicate approval request"));
    // Reserving one replay key must not block other requests from matching.
    assert!(matches!(
        post(&mut broker, None, &body("fresh", "/work/file", "Read"), at(0)),
        WebhookOutcome::Answered { decision: WebhookDecision::Granted, .. }
    ));
}

#[test]
fn after_a_shutdown_everything_is_denied() {
    let mut broker = small_broker();
    broker.shutdown(at(0));
    let WebhookOutcome::Answered { decision, record } =
        post(&mut broker, None, &command_body("late"), at(0))
    else {
        panic!("expected an answer");
    };
    assert_eq!(
        decision,
        WebhookDecision::Denied {
            reason: "approval daemon is shutting down".to_owned()
        }
    );
    assert!(record.is_none());
    assert!(matches!(
        broker.submit(
            nono_approval::protocol::parse_default_webhook_body(
                command_body("x").as_bytes(),
                decode(command_body("x").as_bytes())
            )
            .unwrap(),
            at(0)
        ),
        Ok(_) | Err(BrokerError::Random(_))
    ));
    let outcome = broker.ingress(
        nono_approval::protocol::parse_default_webhook_body(
            command_body("y").as_bytes(),
            decode(command_body("y").as_bytes()),
        )
        .unwrap(),
        at(0),
    );
    assert!(matches!(outcome, Ok(IngressOutcome::Automatic(_))));
}

#[test]
fn refused_requests_leave_no_trace() {
    let mut broker = small_broker();
    let WebhookOutcome::Waiting { submission, .. } =
        post(&mut broker, None, &body("first", "/work", "Read"), at(1))
    else {
        panic!("the first request waits");
    };
    let refused = post(&mut broker, None, &body("first", "/work", "Read"), at(2));
    assert_eq!(status_of(&refused), 409);
    let refused = post(&mut broker, None, "{}", at(2));
    assert_eq!(status_of(&refused), 400);
    let listed = broker.list(at(2));
    assert_eq!(listed.len(), 1);
    assert_eq!(listed[0].approval_id, submission.approval_id);
    assert!(broker.take_completions().is_empty());
}
