use nono_approval::broker::{
    sanitized_denial_reason, validate_denial_reason, ApprovalId, Broker, BrokerConfig, BrokerError,
    DecisionSource, IngressOutcome, ShowApproval, Submission, TerminalState, WaitOutcome,
    DEFAULT_DENIAL_REASON, MAX_DENIAL_REASON_BYTES,
};
use nono_approval::clock::{Moment, SECOND};
use nono_approval::display::build_detail;
use nono_approval::policy::{PolicyError, RuleAction, RuleDraft, RuleScope, MAX_SESSION_RULES};
use nono_approval::protocol::{
    AccessMode, IncomingApproval, KnownApprovalRequest, WebhookDecision,
};

fn at(seconds: u128) -> Moment {
    Moment {
        monotonic: seconds * SECOND,
        wall: (1_785_000_000 + seconds) * SECOND,
    }
}

fn received(request: KnownApprovalRequest) -> IncomingApproval {
    let detail = build_detail(&request);
    IncomingApproval {
        claimed_backend: "local".to_owned(),
        raw_request: "{}".to_owned(),
        request,
        detail,
    }
}

fn incoming(request_id: &str, session_id: &str) -> IncomingApproval {
    received(KnownApprovalRequest::Command {
        request_id: request_id.to_owned(),
        command: "date".to_owned(),
        args: vec!["date".to_owned()],
        caller: "session".to_owned(),
        intercept_rule: "approve".to_owned(),
        reason: None,
        child_pid: 1,
        session_id: session_id.to_owned(),
    })
}

fn capability(id: &str, path: &str, access: AccessMode) -> IncomingApproval {
    received(KnownApprovalRequest::Capability {
        request_id: id.to_owned(),
        path: path.to_owned(),
        access,
        reason: None,
        child_pid: 1,
        session_id: format!("session-{id}"),
    })
}

fn seed(broker: &mut Broker, id: &str, path: &str, now: Moment) -> Submission {
    broker
        .submit(capability(id, path, AccessMode::Read), now)
        .unwrap()
}

fn completion(broker: &mut Broker, id: &ApprovalId) -> WebhookDecision {
    broker
        .take_completions()
        .into_iter()
        .find(|completion| completion.approval_id == *id)
        .unwrap()
        .decision
        .unwrap()
}

#[test]
fn validates_exact_approval_ids() {
    assert!("appr_0123456789abcdef".parse::<ApprovalId>().is_ok());
    assert!("0123456789abcdef".parse::<ApprovalId>().is_err());
    assert!("appr_0123456789ABCDEF".parse::<ApprovalId>().is_err());
    assert!("appr_0123".parse::<ApprovalId>().is_err());
}

#[test]
fn rejects_partial_approval_id_at_parse_time() {
    assert_eq!(
        ApprovalId::parse("appr_1234"),
        Err(BrokerError::InvalidApprovalId)
    );
}

#[test]
fn grants_once_and_destroys_detail() {
    let mut broker = Broker::new(BrokerConfig::default());
    let submission = broker.submit(incoming("r1", "s1"), at(0)).unwrap();
    let id = submission.approval_id.clone();
    assert!(matches!(
        broker.show(&id, at(1)).unwrap(),
        ShowApproval::Pending(_)
    ));
    broker
        .decide(&id, WebhookDecision::Granted, at(2))
        .unwrap();
    let decision = completion(&mut broker, &id);
    assert_eq!(
        submission.wait(WaitOutcome::Decided(decision), &mut broker, at(2)),
        WebhookDecision::Granted
    );
    assert_eq!(
        broker
            .decide(&id, WebhookDecision::Granted, at(3))
            .unwrap_err(),
        BrokerError::NotPending
    );
    assert!(matches!(
        broker.show(&id, at(3)).unwrap(),
        ShowApproval::Completed(completed) if completed.state == TerminalState::Granted
    ));
}

#[test]
fn expires_using_the_daemon_lease() {
    let mut broker = Broker::new(BrokerConfig {
        request_timeout: SECOND / 100,
        ..BrokerConfig::default()
    });
    let submission = broker.submit(incoming("r1", "s1"), at(0)).unwrap();
    let id = submission.approval_id.clone();
    assert_eq!(submission.deadline, at(0).monotonic + SECOND / 100);
    assert_eq!(
        submission.wait(WaitOutcome::LeaseOver, &mut broker, at(1)),
        WebhookDecision::Denied {
            reason: "approval request expired".to_owned()
        }
    );
    assert!(matches!(
        broker.show(&id, at(1)).unwrap(),
        ShowApproval::Completed(completed) if completed.state == TerminalState::Expired
    ));
}

#[test]
fn enforces_duplicate_and_capacity_limits() {
    let mut broker = Broker::new(BrokerConfig {
        max_pending: 2,
        max_per_session: 1,
        ..BrokerConfig::default()
    });
    broker.submit(incoming("r1", "s1"), at(0)).unwrap();
    assert!(matches!(
        broker.submit(incoming("r1", "s1"), at(0)),
        Err(BrokerError::DuplicateRequest)
    ));
    assert!(matches!(
        broker.submit(incoming("r2", "s1"), at(0)),
        Err(BrokerError::PerSessionCapacity)
    ));
    broker.submit(incoming("r2", "s2"), at(0)).unwrap();
    assert!(matches!(
        broker.submit(incoming("r3", "s3"), at(0)),
        Err(BrokerError::GlobalCapacity)
    ));
}

#[test]
fn stale_or_unsupported_requests_do_not_install_rules() {
    let mut broker = Broker::new(BrokerConfig::default());
    let command = broker.submit(incoming("c", "s"), at(0)).unwrap();
    assert_eq!(
        broker.decide_and_remember(
            &command.approval_id,
            RuleAction::Allow,
            RuleScope::Directory,
            None,
            None,
            at(0)
        ),
        Err(BrokerError::Policy(PolicyError::NotCapability))
    );
    assert!(matches!(
        broker.show(&command.approval_id, at(0)).unwrap(),
        ShowApproval::Pending(_)
    ));
    for path in ["relative/path", "/work/../secret", "/nul\0"] {
        let submission = seed(&mut broker, path, path, at(0));
        assert_eq!(
            broker.decide_and_remember(
                &submission.approval_id,
                RuleAction::Allow,
                RuleScope::Directory,
                None,
                None,
                at(0)
            ),
            Err(BrokerError::Policy(PolicyError::InvalidPath))
        );
        assert!(matches!(
            broker.show(&submission.approval_id, at(0)).unwrap(),
            ShowApproval::Pending(_)
        ));
    }
    let completed = seed(&mut broker, "done", "/work", at(0));
    broker
        .decide(&completed.approval_id, WebhookDecision::Granted, at(0))
        .unwrap();
    assert_eq!(
        broker.decide_and_remember(
            &completed.approval_id,
            RuleAction::Allow,
            RuleScope::Directory,
            None,
            None,
            at(0)
        ),
        Err(BrokerError::NotPending)
    );
    assert_eq!(broker.session_rule_count(), 0);
    let mut expired_broker = Broker::new(BrokerConfig {
        request_timeout: 0,
        ..BrokerConfig::default()
    });
    let expired = seed(&mut expired_broker, "expired", "/work", at(0));
    assert_eq!(
        expired_broker.decide_and_remember(
            &expired.approval_id,
            RuleAction::Allow,
            RuleScope::Directory,
            None,
            None,
            at(0)
        ),
        Err(BrokerError::NotPending)
    );
    assert_eq!(expired_broker.session_rule_count(), 0);
}

#[test]
fn rule_limit_failure_is_atomic_and_replacements_still_work() {
    let mut broker = Broker::new(BrokerConfig::default());
    for index in 0..MAX_SESSION_RULES {
        let source = seed(
            &mut broker,
            &index.to_string(),
            &format!("/work/{index}"),
            at(0),
        );
        broker
            .decide_and_remember(
                &source.approval_id,
                RuleAction::Allow,
                RuleScope::Directory,
                None,
                None,
                at(0),
            )
            .unwrap();
    }
    let extra = seed(&mut broker, "extra", "/extra", at(0));
    assert_eq!(
        broker.decide_and_remember(
            &extra.approval_id,
            RuleAction::Deny,
            RuleScope::Path,
            None,
            None,
            at(0)
        ),
        Err(BrokerError::Policy(PolicyError::Capacity))
    );
    assert!(matches!(
        broker.show(&extra.approval_id, at(0)).unwrap(),
        ShowApproval::Pending(_)
    ));
    let replacement = seed(&mut broker, "replace", "/work/0", at(0));
    broker
        .decide_and_remember(
            &replacement.approval_id,
            RuleAction::Deny,
            RuleScope::Directory,
            None,
            None,
            at(0),
        )
        .unwrap();
    assert_eq!(broker.session_rule_count(), MAX_SESSION_RULES);
    assert!(matches!(
        broker
            .ingress(capability("denied", "/work/0", AccessMode::Read), at(0))
            .unwrap(),
        IngressOutcome::Automatic(WebhookDecision::Denied { .. })
    ));
    broker.shutdown(at(0));
    assert_eq!(broker.session_rule_count(), 0);
    assert!(matches!(
        broker
            .ingress(capability("shutdown", "/work/1", AccessMode::Read), at(0))
            .unwrap(),
        IngressOutcome::Automatic(WebhookDecision::Denied { .. })
    ));
    let mut fresh = Broker::new(BrokerConfig::default());
    assert!(matches!(
        fresh
            .ingress(capability("restart", "/work/1", AccessMode::Read), at(0))
            .unwrap(),
        IngressOutcome::Pending(_)
    ));
}

#[test]
fn concurrent_decisions_install_at_most_one_rule_and_leave_other_pending_requests_alone() {
    let mut broker = Broker::new(BrokerConfig::default());
    let source = seed(&mut broker, "source", "/work", at(0));
    let waiting = seed(&mut broker, "waiting", "/work/child", at(0));
    let left = broker.decide_and_remember(
        &source.approval_id,
        RuleAction::Allow,
        RuleScope::Directory,
        None,
        None,
        at(1),
    );
    let right = broker.decide_and_remember(
        &source.approval_id,
        RuleAction::Deny,
        RuleScope::Path,
        None,
        None,
        at(1),
    );
    assert_ne!(left.is_ok(), right.is_ok());
    assert_eq!(left.err().or(right.err()), Some(BrokerError::NotPending));
    assert_eq!(broker.session_rule_count(), 1);
    assert!(matches!(
        broker.show(&waiting.approval_id, at(1)).unwrap(),
        ShowApproval::Pending(_)
    ));
    assert_eq!(broker.clear_session_rules(), 1);
    assert!(matches!(
        broker.show(&waiting.approval_id, at(1)).unwrap(),
        ShowApproval::Pending(_)
    ));
}

#[test]
fn the_queue_is_in_order_of_receipt() {
    let mut broker = Broker::new(BrokerConfig::default());
    let later = broker.submit(incoming("r2", "s"), at(20)).unwrap();
    let earlier = broker.submit(incoming("r1", "s"), at(10)).unwrap();
    let list = broker.list(at(21));
    assert_eq!(list[0].approval_id, earlier.approval_id);
    assert_eq!(list[1].approval_id, later.approval_id);
    assert_eq!(list[0].summary, "date");
    assert_eq!(list[0].capability_type, "command");
    assert_eq!(broker.pending_count(at(21)), 2);
}

#[test]
fn times_are_written_in_utc() {
    let mut broker = Broker::new(BrokerConfig::default());
    let now = Moment {
        monotonic: 0,
        wall: 1_785_153_600 * SECOND,
    };
    broker.submit(incoming("r", "s"), now).unwrap();
    let list = broker.list(now);
    assert_eq!(list[0].received_at, "2026-07-27T12:00:00Z");
    assert_eq!(list[0].deadline, "2026-07-27T12:04:30Z");
}

#[test]
fn completed_requests_are_duplicates_until_their_time_is_over() {
    let mut broker = Broker::new(BrokerConfig::default());
    let first = broker.submit(incoming("r", "s"), at(0)).unwrap();
    broker
        .decide(&first.approval_id, WebhookDecision::Granted, at(1))
        .unwrap();
    assert!(matches!(
        broker.submit(incoming("r", "s"), at(600)),
        Err(BrokerError::DuplicateRequest)
    ));
    assert!(broker.submit(incoming("r", "s"), at(602)).is_ok());
    assert_eq!(
        broker.show(&first.approval_id, at(602)),
        Err(BrokerError::NotFound)
    );
}

#[test]
fn reasons_are_validated_and_sanitized() {
    assert!(validate_denial_reason("not needed").is_ok());
    assert_eq!(
        validate_denial_reason(""),
        Err(BrokerError::EmptyDenialReason)
    );
    assert_eq!(
        validate_denial_reason("\0\0"),
        Err(BrokerError::EmptyDenialReason)
    );
    assert!(validate_denial_reason("a\0b").is_ok());
    assert!(validate_denial_reason(&"x".repeat(MAX_DENIAL_REASON_BYTES)).is_ok());
    assert_eq!(
        validate_denial_reason(&"x".repeat(MAX_DENIAL_REASON_BYTES + 1)),
        Err(BrokerError::DenialReasonTooLarge)
    );
    assert_eq!(sanitized_denial_reason("a\nb"), "a\\nb");
    let mut broker = Broker::new(BrokerConfig::default());
    let submission = broker.submit(incoming("r", "s"), at(0)).unwrap();
    assert_eq!(
        broker.decide(
            &submission.approval_id,
            WebhookDecision::Denied {
                reason: String::new()
            },
            at(0)
        ),
        Err(BrokerError::EmptyDenialReason)
    );
    assert_eq!(broker.pending_count(at(0)), 1);
}

#[test]
fn shutdown_denies_everyone_and_cancel_tells_nobody() {
    let mut broker = Broker::new(BrokerConfig::default());
    let gone = broker.submit(incoming("r1", "s"), at(0)).unwrap();
    let left = broker.submit(incoming("r2", "s"), at(0)).unwrap();
    broker.cancel(&gone.approval_id, at(1)).unwrap();
    assert!(matches!(
        broker.show(&gone.approval_id, at(1)).unwrap(),
        ShowApproval::Completed(completed) if completed.state == TerminalState::Cancelled
    ));
    broker.shutdown(at(2));
    let told = broker.take_completions();
    assert_eq!(told.len(), 2);
    assert_eq!(told[0].source, DecisionSource::Disconnect);
    assert_eq!(told[0].decision, None);
    assert_eq!(told[1].approval_id, left.approval_id);
    assert_eq!(told[1].source, DecisionSource::Shutdown);
    assert_eq!(
        told[1].decision,
        Some(WebhookDecision::Denied {
            reason: "approval daemon is shutting down".to_owned()
        })
    );
    assert_eq!(told[1].wait_duration, 2 * SECOND);
    assert!(broker.take_completions().is_empty());
    assert_eq!(
        broker.cancel(&left.approval_id, at(3)),
        Err(BrokerError::NotFound)
    );
}

#[test]
fn identifiers_are_drawn_and_written() {
    let id = ApprovalId::from_bytes([0, 1, 0x23, 0x45, 0x67, 0x89, 0xab, 0xff]);
    assert_eq!(id.as_str(), "appr_000123456789abff");
    let first = ApprovalId::random().unwrap();
    let second = ApprovalId::random().unwrap();
    assert_ne!(first, second);
    assert!(ApprovalId::parse(first.as_str()).is_ok());
    let mut broker = Broker::new(BrokerConfig::default());
    assert!(!broker.knows_id(&id));
    let submission = broker.register(id.clone(), incoming("r", "s"), at(0));
    assert_eq!(submission.approval_id, id);
    assert!(broker.knows_id(&id));
}

#[test]
fn rule_sets_are_replaced_whole_or_not_at_all() {
    let mut broker = Broker::new(BrokerConfig::default());
    let draft = |path: &str| RuleDraft {
        action: RuleAction::Deny,
        path: path.to_owned(),
        scope: RuleScope::Directory,
        access: AccessMode::Read,
    };
    assert_eq!(
        broker.replace_session_rules(vec![draft("/a/"), draft("/b")]),
        Ok(2)
    );
    assert_eq!(
        broker.replace_session_rules(vec![draft("/c"), draft("relative")]),
        Err(BrokerError::Policy(PolicyError::InvalidPath))
    );
    let paths: Vec<String> = broker
        .session_rules()
        .into_iter()
        .map(|draft| draft.path)
        .collect();
    assert_eq!(paths, ["/a", "/b"]);
    let hit = capability("hit", "/a/file", AccessMode::Read);
    assert_eq!(broker.matching_rule(&hit.request).unwrap().path, "/a");
    assert_eq!(broker.replace_session_rules(Vec::new()), Ok(0));
    assert_eq!(broker.session_rule_count(), 0);
}

#[test]
fn broker_errors_have_messages() {
    for (error, message) in [
        (
            BrokerError::InvalidApprovalId,
            "approval ID must be appr_ followed by 16 lowercase hexadecimal characters",
        ),
        (
            BrokerError::DuplicateRequest,
            "approval request is already active or was recently completed",
        ),
        (
            BrokerError::PerSessionCapacity,
            "per-session pending approval limit reached",
        ),
        (
            BrokerError::GlobalCapacity,
            "global pending approval limit reached",
        ),
        (BrokerError::NotFound, "approval not found"),
        (BrokerError::NotPending, "approval is no longer pending"),
        (
            BrokerError::EmptyDenialReason,
            "denial reason must not be empty",
        ),
        (
            BrokerError::DenialReasonTooLarge,
            "denial reason exceeds 4096 bytes",
        ),
        (
            BrokerError::Random("x".to_owned()),
            "operating-system randomness failed: x",
        ),
        (
            BrokerError::Policy(PolicyError::Capacity),
            "session rule limit reached (128)",
        ),
    ] {
        assert_eq!(error.message(), message);
    }
    assert_eq!(DEFAULT_DENIAL_REASON, "denied by local user");
}

#[test]
fn tombstones_are_few() {
    let mut broker = Broker::new(BrokerConfig {
        tombstone_limit: 1,
        ..BrokerConfig::default()
    });
    let first = broker.submit(incoming("r1", "s"), at(0)).unwrap();
    let second = broker.submit(incoming("r2", "s"), at(0)).unwrap();
    for id in [&first.approval_id, &second.approval_id] {
        broker.decide(id, WebhookDecision::Granted, at(1)).unwrap();
    }
    assert_eq!(
        broker.show(&first.approval_id, at(1)),
        Err(BrokerError::NotFound)
    );
    assert!(broker.show(&second.approval_id, at(1)).is_ok());
    assert_eq!(
        broker
            .decide(&first.approval_id, WebhookDecision::Granted, at(1)),
        Err(BrokerError::NotFound)
    );
    assert!(broker.reaches(at(1)));
    assert_eq!(broker.config().tombstone_limit, 1);
}
