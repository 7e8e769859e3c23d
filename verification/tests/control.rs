use nono_approval::broker::{ApprovalId, Broker, BrokerConfig, ShowApproval, Submission, TerminalState};
use nono_approval::clock::{Moment, SECOND};
use nono_approval::control::{
    check_response, handle, route, socket_path, ApprovalView, ClientBody, ControlBody,
    ControlClient, ControlClientError, ControlContent, ControlContext, ControlMethod, ControlReply,
    DebugCaptureStatus, DecisionRequest, Route, SessionRuleRequest, MAX_CONTROL_BODY_BYTES,
    MAX_SESSION_RULES_BODY_BYTES,
};
use nono_approval::display::build_detail;
use nono_approval::policy::{RuleAction, RuleDraft, RuleScope, MAX_SESSION_RULES};
use nono_approval::protocol::{AccessMode, IncomingApproval, KnownApprovalRequest};

const ID: &str = "appr_0123456789abcdef";

fn at(seconds: u128) -> Moment {
    Moment {
        monotonic: seconds * SECOND,
        wall: (1_785_000_000 + seconds) * SECOND,
    }
}

fn context() -> ControlContext {
    ControlContext {
        started_at: 0,
        webhook_listen: "127.0.0.1:17443".to_owned(),
        max_pending: 64,
        max_per_session: 8,
        debug_capture: DebugCaptureStatus::Enabled {
            path: "/state/x.ndjson".to_owned(),
        },
    }
}

fn seed(broker: &mut Broker, id: &str, path: &str) -> Submission {
    let request = KnownApprovalRequest::Capability {
        request_id: id.to_owned(),
        path: path.to_owned(),
        access: AccessMode::Read,
        reason: None,
        child_pid: 1,
        session_id: format!("session-{id}"),
    };
    let detail = build_detail(&request);
    broker
        .submit(
            IncomingApproval {
                claimed_backend: "test".to_owned(),
                raw_request: "{}".to_owned(),
                request,
                detail,
            },
            at(0),
        )
        .unwrap()
}

fn empty() -> ControlBody {
    ControlBody {
        length: Some(0),
        content: ControlContent::Malformed,
    }
}

fn ask(broker: &mut Broker, method: ControlMethod, path: &str, body: ControlBody) -> ControlReply {
    let (path, query) = match path.split_once('?') {
        Some((path, query)) => (path, Some(query)),
        None => (path, None),
    };
    handle(route(method, path, query), body, &context(), broker, at(8))
}

fn error_of(reply: &ControlReply) -> (u16, &str) {
    match reply {
        ControlReply::Error(status, error) => (*status, error),
        ControlReply::Empty(status) => (*status, ""),
        _ => (200, ""),
    }
}

#[test]
fn requests_are_routed() {
    let of = |method, path: &str| route(method, path, None);
    assert!(matches!(of(ControlMethod::Get, "/v1/status"), Route::Status));
    assert!(matches!(of(ControlMethod::Post, "/v1/status"), Route::Unknown));
    assert!(matches!(of(ControlMethod::Get, "/v1/approvals"), Route::List));
    assert!(matches!(
        of(ControlMethod::Get, "/v1/session-rules"),
        Route::SessionRules
    ));
    assert!(matches!(
        of(ControlMethod::Put, "/v1/session-rules"),
        Route::ReplaceSessionRules
    ));
    assert!(matches!(
        of(ControlMethod::Delete, "/v1/session-rules"),
        Route::ClearSessionRules
    ));
    assert!(matches!(
        of(ControlMethod::Post, "/v1/session-rules"),
        Route::Unknown
    ));
    assert!(matches!(
        of(ControlMethod::Get, "/v1/approvals/appr_1234"),
        Route::InvalidId
    ));
    assert!(matches!(
        of(ControlMethod::Get, &format!("/v1/approvals/{ID}")),
        Route::Show { debug: false, .. }
    ));
    assert!(matches!(
        route(ControlMethod::Get, &format!("/v1/approvals/{ID}"), Some("debug=true")),
        Route::Show { debug: true, .. }
    ));
    assert!(matches!(
        route(ControlMethod::Get, &format!("/v1/approvals/{ID}"), Some("debug=1")),
        Route::Show { debug: false, .. }
    ));
    assert!(matches!(
        of(ControlMethod::Get, &format!("/v1/approvals/{ID}/decision")),
        Route::Unknown
    ));
    assert!(matches!(
        of(ControlMethod::Post, &format!("/v1/approvals/{ID}/decision")),
        Route::Decide { .. }
    ));
    assert!(matches!(
        of(ControlMethod::Post, "/v1/approvals/x/decision"),
        Route::InvalidId
    ));
    assert!(matches!(
        of(ControlMethod::Post, &format!("/v1/approvals/{ID}")),
        Route::Unknown
    ));
    assert!(matches!(of(ControlMethod::Get, "/"), Route::Unknown));
}

#[test]
fn clients_write_requests_that_are_routed_back() {
    let client = ControlClient::new("/run/control.sock");
    assert_eq!(socket_path(&client), "/run/control.sock");
    let id = ApprovalId::parse(ID).unwrap();
    let show = client.show(&id, true);
    assert_eq!(show.path, format!("/v1/approvals/{ID}"));
    assert_eq!(show.query.as_deref(), Some("debug=true"));
    assert!(client.show(&id, false).query.is_none());
    let decide = client.decide(&id, &DecisionRequest::Granted);
    assert_eq!(decide.path, format!("/v1/approvals/{ID}/decision"));
    assert!(matches!(
        decide.body,
        ClientBody::Decision(DecisionRequest::Granted)
    ));
    assert!(matches!(
        route(decide.method, &decide.path, None),
        Route::Decide { approval_id } if approval_id == id
    ));
    assert_eq!(client.replace_session_rules(Vec::new()).method, ControlMethod::Put);
    assert_eq!(client.session_rules().method, ControlMethod::Get);
    assert_eq!(client.status().path, "/v1/status");
}

#[test]
fn the_status_tells_of_the_daemon() {
    let mut broker = Broker::new(BrokerConfig::default());
    seed(&mut broker, "a", "/a");
    let ControlReply::Status(status) = ask(&mut broker, ControlMethod::Get, "/v1/status", empty())
    else {
        panic!("expected the status");
    };
    assert_eq!(status.version, "0.1.0");
    assert_eq!(status.uptime_seconds, 8);
    assert_eq!(status.pending, 1);
    assert_eq!(status.max_pending, 64);
    assert_eq!(status.max_per_session, 8);
    assert_eq!(status.webhook_listen, "127.0.0.1:17443");
    assert_eq!(status.debug_capture, context().debug_capture);
    assert_eq!(status.session_rule_count, 0);
}

#[test]
fn debug_data_is_told_on_request_only() {
    let mut broker = Broker::new(BrokerConfig::default());
    let source = seed(&mut broker, "a", "/a");
    let path = format!("/v1/approvals/{}", source.approval_id.as_str());
    let ControlReply::Approval(ApprovalView::Pending(detail)) =
        ask(&mut broker, ControlMethod::Get, &path, empty())
    else {
        panic!("expected a detail");
    };
    assert!(detail.debug.is_none());
    assert!(detail.content.debug_fields.is_empty());
    let ControlReply::Approval(ApprovalView::Pending(detail)) =
        ask(&mut broker, ControlMethod::Get, &format!("{path}?debug=true"), empty())
    else {
        panic!("expected a detail");
    };
    assert_eq!(detail.debug.unwrap().claimed_backend, "test");
    assert_eq!(detail.content.debug_fields.len(), 3);
    let reply = ask(
        &mut broker,
        ControlMethod::Get,
        &format!("/v1/approvals/{ID}"),
        empty(),
    );
    assert_eq!(error_of(&reply), (404, "approval not found"));
}

#[test]
fn decisions_are_answered() {
    let mut broker = Broker::new(BrokerConfig::default());
    let source = seed(&mut broker, "a", "/a");
    let path = format!("/v1/approvals/{}/decision", source.approval_id.as_str());
    let decision = |request: DecisionRequest| ControlBody {
        length: Some(40),
        content: ControlContent::Decision(request),
    };
    for refused in [
        empty(),
        ControlBody {
            length: None,
            content: ControlContent::Decision(DecisionRequest::Granted),
        },
        ControlBody {
            length: Some(MAX_CONTROL_BODY_BYTES + 1),
            content: ControlContent::Decision(DecisionRequest::Granted),
        },
    ] {
        let reply = ask(&mut broker, ControlMethod::Post, &path, refused);
        assert_eq!(error_of(&reply), (400, "invalid decision body"));
    }
    let reply = ask(
        &mut broker,
        ControlMethod::Post,
        &path,
        decision(DecisionRequest::Denied {
            reason: String::new(),
        }),
    );
    assert_eq!(error_of(&reply), (400, "invalid denial reason"));
    let reply = ask(
        &mut broker,
        ControlMethod::Post,
        &format!("/v1/approvals/{ID}/decision"),
        decision(DecisionRequest::Granted),
    );
    assert_eq!(error_of(&reply), (404, "approval not found"));
    let ControlReply::Decided(response) = ask(
        &mut broker,
        ControlMethod::Post,
        &path,
        decision(DecisionRequest::Granted),
    ) else {
        panic!("expected a decision");
    };
    assert_eq!(response.approval_id, source.approval_id);
    assert_eq!(response.state, TerminalState::Granted);
    let reply = ask(
        &mut broker,
        ControlMethod::Post,
        &path,
        decision(DecisionRequest::Granted),
    );
    assert_eq!(error_of(&reply), (409, "approval is no longer pending"));
    let reply = ask(
        &mut broker,
        ControlMethod::Post,
        "/v1/approvals/appr_1/decision",
        decision(DecisionRequest::Granted),
    );
    assert_eq!(error_of(&reply), (400, "invalid approval ID"));
    let reply = ask(&mut broker, ControlMethod::Get, "/v2", empty());
    assert_eq!(error_of(&reply), (404, ""));
    assert_eq!(reply.status(), 404);
}

#[test]
fn control_rejects_malformed_or_oversized_rule_bodies_without_deciding() {
    let mut broker = Broker::new(BrokerConfig::default());
    let source = seed(&mut broker, "source", "/work");
    let path = format!("/v1/approvals/{}/session-rule", source.approval_id.as_str());
    let rule = |action, scope, reason: Option<&str>, path: Option<&str>| ControlBody {
        length: Some(60),
        content: ControlContent::Rule(SessionRuleRequest {
            action,
            scope,
            reason: reason.map(str::to_owned),
            path: path.map(str::to_owned),
        }),
    };
    for body in [
        rule(RuleAction::Allow, RuleScope::Directory, None, Some("/injected")),
        ControlBody {
            length: Some(60),
            content: ControlContent::Malformed,
        },
        rule(RuleAction::Allow, RuleScope::Directory, Some("ignored?"), None),
        rule(RuleAction::Deny, RuleScope::Path, Some(""), None),
        ControlBody {
            length: Some(8193),
            content: ControlContent::Malformed,
        },
    ] {
        let reply = ask(&mut broker, ControlMethod::Post, &path, body);
        assert_eq!(reply.status(), 400);
        assert_eq!(broker.session_rule_count(), 0);
        assert_eq!(broker.pending_count(at(8)), 1);
    }
}

fn draft(path: &str) -> RuleDraft {
    RuleDraft {
        action: RuleAction::Allow,
        path: path.to_owned(),
        scope: RuleScope::Directory,
        access: AccessMode::Read,
    }
}

#[test]
fn control_replaces_full_size_policy_and_rejects_oversized_batches() {
    let mut broker = Broker::new(BrokerConfig::default());
    let long = "a".repeat(1024);
    let rules: Vec<RuleDraft> = (0..MAX_SESSION_RULES)
        .map(|index| draft(&format!("/work/{index:03}/{long}")))
        .collect();
    let put = |broker: &mut Broker, length, rules: Vec<RuleDraft>| {
        ask(
            broker,
            ControlMethod::Put,
            "/v1/session-rules",
            ControlBody {
                length: Some(length),
                content: ControlContent::Rules(rules),
            },
        )
    };
    assert!(matches!(
        put(&mut broker, 150_000, rules),
        ControlReply::Installed(MAX_SESSION_RULES)
    ));
    assert_eq!(broker.session_rule_count(), MAX_SESSION_RULES);
    let reply = put(&mut broker, MAX_SESSION_RULES_BODY_BYTES + 1, Vec::new());
    assert_eq!(reply.status(), 413);
    let too_many: Vec<RuleDraft> = (0..=MAX_SESSION_RULES)
        .map(|index| draft(&format!("/work/{index}")))
        .collect();
    let reply = put(&mut broker, 20_000, too_many);
    assert_eq!(error_of(&reply), (400, "session rule limit reached (128)"));
    assert_eq!(broker.session_rule_count(), MAX_SESSION_RULES);
    let reply = ask(&mut broker, ControlMethod::Put, "/v1/session-rules", empty());
    assert_eq!(reply.status(), 400);
    let ControlReply::Rules(rules) =
        ask(&mut broker, ControlMethod::Get, "/v1/session-rules", empty())
    else {
        panic!("expected the rules");
    };
    assert_eq!(rules.len(), MAX_SESSION_RULES);
    assert!(matches!(
        ask(&mut broker, ControlMethod::Delete, "/v1/session-rules", empty()),
        ControlReply::Cleared(MAX_SESSION_RULES)
    ));
    assert_eq!(broker.session_rule_count(), 0);
}

#[test]
fn asking_lets_leases_run_out_and_nothing_else() {
    let mut broker = Broker::new(BrokerConfig {
        request_timeout: 5 * SECOND,
        ..BrokerConfig::default()
    });
    let source = seed(&mut broker, "a", "/a");
    let ControlReply::List(list) = ask(&mut broker, ControlMethod::Get, "/v1/approvals", empty())
    else {
        panic!("expected the queue");
    };
    assert!(list.approvals.is_empty());
    assert!(matches!(
        broker.show(&source.approval_id, at(8)).unwrap(),
        ShowApproval::Completed(completed) if completed.state == TerminalState::Expired
    ));
}

#[test]
fn client_errors_have_messages() {
    let error = check_response(409, Some("taken".to_owned()), "{}".to_owned()).unwrap_err();
    assert_eq!(
        error.message(),
        "control request failed with HTTP 409 Conflict: taken"
    );
    let error = check_response(500, None, "oops".to_owned()).unwrap_err();
    assert_eq!(
        error,
        ControlClientError::Response {
            status: 500,
            message: "oops".to_owned()
        }
    );
    assert!(check_response(204, None, String::new()).is_ok());
    assert_eq!(
        ControlClientError::Response {
            status: 7,
            message: "odd".to_owned()
        }
        .message(),
        "control request failed with HTTP 7: odd"
    );
    assert_eq!(
        ControlClientError::Connect("gone".to_owned()).message(),
        "could not connect to approval daemon: gone"
    );
    assert_eq!(
        ControlClientError::Transport("cut".to_owned()).message(),
        "control HTTP transport failed: cut"
    );
    assert_eq!(
        ControlClientError::InvalidResponse("x".to_owned()).message(),
        "invalid control response: x"
    );
    assert_eq!(
        ControlClientError::BuildRequest("y".to_owned()).message(),
        "could not build control request: y"
    );
}
