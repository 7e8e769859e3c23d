use nono_approval::broker::{
    ApprovalId, ApprovalSummary, Broker, BrokerConfig, IngressOutcome, ShowApproval, Submission,
};
use nono_approval::clock::{Moment, SECOND};
use nono_approval::control::{
    check_response, handle, route, ApprovalView, ClientBody, ClientRequest, ControlBody,
    ControlClientError, ControlContent, ControlContext, ControlReply, DebugCaptureStatus,
    DecisionRequest, DecisionResponse, SessionRuleRequest,
};
use nono_approval::display::build_detail;
use nono_approval::interactive::{
    handle_key, session_rule_request, Action, App, ClearConfirmation, DetailReply, InteractiveError,
    KeyOutcome, ReasonInput, RefreshEvent, RefreshNeed, SaveInput,
};
use nono_approval::keys::{KeyCode, KeyEvent, KeyEventKind, KeyModifiers};
use nono_approval::policy::{RuleAction, RuleDraft, RuleScope};
use nono_approval::protocol::{AccessMode, IncomingApproval, KnownApprovalRequest, WebhookDecision};
use nono_approval::screen::{
    centered_rect, countdown_text, footer_message, footer_text, lease_remaining, left_width,
    queue_title, render, render_detail, render_queue, render_rule_editing, render_save_dialog,
    render_source, resolve_save_path, save_target, Area, Panes, DETAIL_TITLE, SOURCE_TITLE,
    TOO_SMALL_MESSAGE,
};

const ID: &str = "appr_0123456789abcdef";

fn approval() -> ApprovalSummary {
    ApprovalSummary {
        approval_id: ID.parse().unwrap(),
        capability_type: "command".to_owned(),
        summary: "a very long request summary that must visibly truncate".to_owned(),
        received_at: "2026-07-29T00:00:00Z".to_owned(),
        deadline: "2026-07-29T00:04:30Z".to_owned(),
    }
}

fn at(now: u128) -> Moment {
    Moment {
        monotonic: now,
        wall: 1_785_000_000 * SECOND + now,
    }
}

fn received(request: KnownApprovalRequest) -> IncomingApproval {
    let detail = build_detail(&request);
    IncomingApproval {
        claimed_backend: "test".to_owned(),
        raw_request: "{}".to_owned(),
        request,
        detail,
    }
}

fn capability(id: &str, path: &str) -> IncomingApproval {
    received(KnownApprovalRequest::Capability {
        request_id: id.to_owned(),
        path: path.to_owned(),
        access: AccessMode::Read,
        reason: None,
        child_pid: 1,
        session_id: "tui".to_owned(),
    })
}

fn none() -> KeyModifiers {
    KeyModifiers::default()
}

fn control() -> KeyModifiers {
    KeyModifiers {
        control: true,
        ..none()
    }
}

fn alt() -> KeyModifiers {
    KeyModifiers { alt: true, ..none() }
}

fn logo() -> KeyModifiers {
    KeyModifiers {
        logo: true,
        ..none()
    }
}

fn shift() -> KeyModifiers {
    KeyModifiers {
        shift: true,
        ..none()
    }
}

struct Daemon {
    broker: Broker,
    running: bool,
    now: u128,
}

impl Daemon {
    fn new() -> Self {
        Daemon {
            broker: Broker::new(BrokerConfig::default()),
            running: true,
            now: 0,
        }
    }

    fn submit(&mut self, incoming: IncomingApproval) -> Submission {
        self.broker.submit(incoming, at(self.now)).unwrap()
    }

    fn pending(&mut self) -> usize {
        self.broker.pending_count(at(self.now))
    }

    fn ask(&mut self, request: ClientRequest) -> Result<ControlReply, ControlClientError> {
        if !self.running {
            return Err(ControlClientError::Connect("no such socket".to_owned()));
        }
        let content = match request.body {
            ClientBody::Empty => ControlContent::Malformed,
            ClientBody::Decision(decision) => ControlContent::Decision(decision),
            ClientBody::Rule(rule) => ControlContent::Rule(rule),
            ClientBody::Rules(rules) => ControlContent::Rules(rules),
        };
        let context = ControlContext {
            started_at: 0,
            webhook_listen: "127.0.0.1:0".to_owned(),
            max_pending: 64,
            max_per_session: 8,
            debug_capture: DebugCaptureStatus::Disabled,
        };
        let reply = handle(
            route(request.method, &request.path, request.query.as_deref()),
            ControlBody {
                length: Some(10),
                content,
            },
            &context,
            &mut self.broker,
            at(self.now),
        );
        let told = match &reply {
            ControlReply::Error(_, error) => Some(error.clone()),
            _ => None,
        };
        check_response(reply.status(), told, String::new())?;
        Ok(reply)
    }

    fn decided(&mut self, request: ClientRequest) -> Result<DecisionResponse, ControlClientError> {
        match self.ask(request)? {
            ControlReply::Decided(response) => Ok(response),
            _ => panic!("expected a decision"),
        }
    }

    fn view(&mut self, request: ClientRequest) -> Result<ApprovalView, ControlClientError> {
        match self.ask(request)? {
            ControlReply::Approval(view) => Ok(view),
            _ => panic!("expected an approval"),
        }
    }

    fn refresh(&mut self, app: &mut App) {
        let mut need = app.refresh(RefreshEvent::Due, self.now);
        loop {
            let event = match need {
                RefreshNeed::Done => return,
                RefreshNeed::List => RefreshEvent::Listed(match self.ask(app.client.list()) {
                    Ok(ControlReply::List(list)) => Some(list.approvals),
                    _ => None,
                }),
                RefreshNeed::Status => RefreshEvent::Informed(match self.ask(app.client.status()) {
                    Ok(ControlReply::Status(status)) => Some(status),
                    _ => None,
                }),
                RefreshNeed::Detail(id) => {
                    RefreshEvent::Shown(match self.view(app.client.show(&id, false)) {
                        Ok(view) => DetailReply::Shown(view),
                        Err(ControlClientError::Response { status: 404, .. }) => {
                            DetailReply::NotFound
                        }
                        Err(_) => DetailReply::Failed,
                    })
                }
            };
            need = app.refresh(event, self.now);
        }
    }

    fn key(&mut self, app: &mut App, key: KeyEvent) -> bool {
        let KeyOutcome { quit, action } = handle_key(app, key, self.now);
        match action {
            None => {}
            Some(Action::Decide {
                approval_id,
                decision,
            }) => {
                let request = app.client.decide(&approval_id, &decision);
                let outcome = self.decided(request);
                app.decide(outcome, self.now);
            }
            Some(Action::ClearSessionRules) => {
                let outcome = self
                    .ask(app.client.clear_session_rules())
                    .map(|reply| match reply {
                        ControlReply::Cleared(count) => count,
                        _ => panic!("expected a count"),
                    });
                app.clear_session_rules(outcome, self.now);
            }
            Some(Action::SaveSessionRules { value }) => self.save(app, &value),
            Some(Action::OpenRuleEditor {
                approval_id,
                action,
                scope,
            }) => {
                let outcome = self.view(app.client.show(&approval_id, true));
                app.open_rule_editor(approval_id, action, scope, outcome, self.now);
            }
            Some(Action::Remember { approval_id, draft }) => {
                let request = app
                    .client
                    .remember(&approval_id, session_rule_request(&draft));
                let outcome = self.decided(request);
                app.submit_rule(&draft, outcome, self.now);
            }
        }
        quit
    }

    fn keys(&mut self, app: &mut App, codes: &[KeyCode]) {
        for code in codes {
            self.key(app, KeyEvent::new(*code, none()));
        }
    }

    fn save(&mut self, app: &mut App, value: &str) {
        let outcome = match self.ask(app.client.session_rules()) {
            Ok(ControlReply::Rules(rules)) => save_target(&rules, value, "/config"),
            Ok(_) => panic!("expected the rules"),
            Err(error) => Err(error.message()),
        };
        app.save_session_rules(outcome, self.now);
    }
}

fn rendered(app: &mut App, width: u16, height: u16) -> String {
    let wall = at(0).wall;
    if app.editing.is_some() {
        let count = app.session_rule_count;
        let capture = app.debug_capture.clone();
        let editing = app.editing.as_mut().unwrap();
        let Some(division) = render_rule_editing(editing, count, &capture, width, height, wall)
        else {
            return TOO_SMALL_MESSAGE.to_owned();
        };
        let mut text = format!("{SOURCE_TITLE}\n");
        for line in render_source(editing) {
            text.push_str(&line);
            text.push('\n');
        }
        let main = height - division.footer_height;
        let (form_width, form_height) = if division.side_by_side {
            (width - left_width(width), main)
        } else {
            (width, main - division.source_height)
        };
        let blocked = editing.blocked();
        let screen = editing
            .editor
            .render(form_width, form_height, blocked.as_deref())
            .unwrap();
        text.push_str(screen.title);
        text.push('\n');
        for line in screen
            .lines
            .iter()
            .skip(usize::from(screen.scroll))
            .take(usize::from(screen.body_height))
        {
            text.push_str(&line.text);
            text.push('\n');
        }
        for hint in &screen.hints {
            text.push_str(hint);
            text.push('\n');
        }
        text.push_str(&division.footer);
        return text;
    }
    let division = render(app, width, height);
    let mut text = String::new();
    let queue_width = if division.panes == Panes::Both {
        left_width(width)
    } else {
        width
    };
    if division.panes != Panes::Detail {
        text.push_str(queue_title(app.connected));
        for line in render_queue(app, queue_width) {
            text.push('\n');
            text.push_str(&line);
        }
    }
    if division.panes != Panes::Queue {
        text.push('\n');
        text.push_str(DETAIL_TITLE);
        for line in render_detail(app, wall) {
            text.push('\n');
            text.push_str(&line.label);
            text.push_str(&line.text);
        }
    }
    text.push('\n');
    text.push_str(&footer_text(app));
    text
}

#[test]
fn disconnect_clears_all_request_state() {
    let mut app = App::new("/tmp/unreachable-control.sock", 0);
    app.connected = true;
    app.session_rule_count = 3;
    app.approvals.push(approval());
    app.selected = Some(0);
    app.detail_scroll = 42;
    app.show_detail_panel = true;
    app.reason = Some(ReasonInput {
        approval_id: ID.parse().unwrap(),
        value: "draft".to_owned(),
        error: None,
    });
    app.clear_confirmation = ClearConfirmation::Visible;
    app.disconnect(0);
    assert!(!app.connected);
    assert_eq!(app.session_rule_count, 0);
    assert!(app.approvals.is_empty());
    assert!(app.detail.is_none());
    assert_eq!(app.detail_scroll, 0);
    assert!(app.selected.is_none());
    assert!(app.reason.is_none());
    assert_eq!(app.clear_confirmation, ClearConfirmation::Closed);
    assert_eq!(app.status, "Disconnected — waiting for daemon…");
    assert_eq!(app.next_poll, SECOND);
}

#[test]
fn clear_rules_requires_confirmation_and_preserves_pending_requests() {
    let mut daemon = Daemon::new();
    let mut app = App::new("/run/control.sock", 0);
    for (id, action) in [("allow", RuleAction::Allow), ("deny", RuleAction::Deny)] {
        let source = daemon.submit(capability(id, &format!("/{id}")));
        let request = app.client.remember(
            &source.approval_id,
            SessionRuleRequest {
                action,
                scope: RuleScope::Path,
                reason: None,
                path: None,
            },
        );
        daemon.decided(request).unwrap();
    }
    let pending = daemon.submit(capability("pending", "/pending"));
    daemon.refresh(&mut app);
    let original_id = app.selected_id();
    let original_deadline = app.detail.as_ref().unwrap().deadline.clone();
    assert_eq!(app.session_rule_count, 2);
    assert!(rendered(&mut app, 60, 24).contains("C clear rules"));

    for cancel in [KeyCode::Char('n'), KeyCode::Esc] {
        daemon.keys(&mut app, &[KeyCode::Char('C')]);
        daemon.refresh(&mut app);
        assert_ne!(app.clear_confirmation, ClearConfirmation::Closed);
        assert!(rendered(&mut app, 60, 24).contains("Clear ALL 2"));
        daemon.keys(
            &mut app,
            &[
                KeyCode::Enter,
                KeyCode::Char('a'),
                KeyCode::Char('d'),
                KeyCode::Char('D'),
                KeyCode::Char('r'),
                KeyCode::Down,
                KeyCode::Tab,
            ],
        );
        assert_eq!(app.selected_id(), original_id);
        assert!(app.reason.is_none());
        assert!(app.editing.is_none());
        assert_eq!(daemon.broker.session_rule_count(), 2);
        daemon.keys(&mut app, &[cancel]);
        assert_eq!(app.clear_confirmation, ClearConfirmation::Closed);
    }
    daemon.keys(&mut app, &[KeyCode::Char('C'), KeyCode::Char('y')]);
    assert_eq!(daemon.broker.session_rule_count(), 2); // Not drawn yet.
    assert!(rendered(&mut app, 60, 24).contains("y confirm"));
    for modifiers in [control(), alt(), logo()] {
        daemon.key(&mut app, KeyEvent::new(KeyCode::Char('y'), modifiers));
    }
    for kind in [KeyEventKind::Repeat, KeyEventKind::Release] {
        daemon.key(
            &mut app,
            KeyEvent::new_with_kind(KeyCode::Char('y'), none(), kind),
        );
    }
    assert_eq!(daemon.broker.session_rule_count(), 2);
    daemon.keys(&mut app, &[KeyCode::Char('y')]);
    assert_eq!(app.clear_confirmation, ClearConfirmation::Closed);
    assert_eq!(app.session_rule_count, 0);
    assert_eq!(daemon.broker.session_rule_count(), 0);
    assert_eq!(daemon.pending(), 1);
    daemon.refresh(&mut app);
    assert_eq!(app.selected_id(), Some(pending.approval_id.clone()));
    assert_eq!(app.detail.as_ref().unwrap().deadline, original_deadline);
    assert_eq!(app.status, "Cleared 2 session rule(s).");
}

#[test]
fn clear_rules_works_with_an_empty_queue_and_no_rules() {
    let mut daemon = Daemon::new();
    let mut app = App::new("/run/control.sock", 0);
    daemon.refresh(&mut app);
    assert!(app.approvals.is_empty());
    daemon.keys(&mut app, &[KeyCode::Char('C')]);
    assert!(rendered(&mut app, 60, 24).contains("Clear ALL 0"));
    daemon.keys(&mut app, &[KeyCode::Char('y')]);
    daemon.refresh(&mut app);
    assert_eq!(app.status, "Cleared 0 session rule(s).");
    assert_eq!(app.clear_confirmation, ClearConfirmation::Closed);
    assert_eq!(daemon.pending(), 0);
    assert_eq!(daemon.broker.session_rule_count(), 0);
}

#[test]
fn clear_prompt_is_visible_without_pending_requests_and_safe_when_too_small() {
    let mut daemon = Daemon::new();
    daemon.running = false;
    let mut app = App::new("/missing.sock", 0);
    daemon.keys(&mut app, &[KeyCode::Char('C')]);
    assert_eq!(app.clear_confirmation, ClearConfirmation::Closed);
    app.connected = true;
    for modifiers in [control(), alt(), logo()] {
        daemon.key(&mut app, KeyEvent::new(KeyCode::Char('C'), modifiers));
    }
    for kind in [KeyEventKind::Repeat, KeyEventKind::Release] {
        daemon.key(
            &mut app,
            KeyEvent::new_with_kind(KeyCode::Char('C'), shift(), kind),
        );
    }
    assert_eq!(app.clear_confirmation, ClearConfirmation::Closed);
    assert!(rendered(&mut app, 60, 24).contains("C clear rules"));
    daemon.key(&mut app, KeyEvent::new(KeyCode::Char('C'), shift()));
    for (width, height) in [(120, 30), (80, 24), (60, 24), (36, 12)] {
        let text = rendered(&mut app, width, height);
        assert_eq!(app.clear_confirmation, ClearConfirmation::Visible);
        for expected in [
            "Clear ALL 0",
            "allow/deny",
            "daemon",
            "all clients",
            "Pending",
            "unchanged",
            "y confirm",
            "n/Esc cancel",
        ] {
            assert!(
                text.contains(expected),
                "missing {expected} at {width}x{height}"
            );
        }
    }
    assert!(rendered(&mut app, 40, 5).contains("Resize to confirm"));
    assert_eq!(app.clear_confirmation, ClearConfirmation::Hidden);
    daemon.keys(&mut app, &[KeyCode::Char('y')]);
    assert_eq!(app.clear_confirmation, ClearConfirmation::Hidden);
    assert!(daemon.key(&mut app, KeyEvent::new(KeyCode::Char('c'), control())));
    daemon.keys(&mut app, &[KeyCode::Esc]);
    assert_eq!(app.clear_confirmation, ClearConfirmation::Closed);
    app.reason = Some(ReasonInput {
        approval_id: ID.parse().unwrap(),
        value: String::new(),
        error: None,
    });
    daemon.keys(&mut app, &[KeyCode::Char('C')]);
    assert_eq!(app.reason.as_ref().unwrap().value, "C");
    assert_eq!(app.clear_confirmation, ClearConfirmation::Closed);
}

#[test]
fn clear_failure_is_reported_and_disconnect_cancels_confirmation() {
    let mut daemon = Daemon::new();
    daemon.running = false;
    let mut app = App::new("/missing.sock", 0);
    app.connected = true;
    app.session_rule_count = 3;
    daemon.keys(&mut app, &[KeyCode::Char('C')]);
    rendered(&mut app, 60, 24);
    daemon.keys(&mut app, &[KeyCode::Char('y')]);
    assert_eq!(app.clear_confirmation, ClearConfirmation::Closed);
    assert_eq!(app.session_rule_count, 3);
    assert!(app.status.starts_with("Clear session rules failed:"));
    daemon.refresh(&mut app);
    assert!(!app.connected);
    assert!(app.status.starts_with("Clear session rules failed:"));
    app.connected = true;
    daemon.keys(&mut app, &[KeyCode::Char('C')]);
    rendered(&mut app, 60, 24);
    daemon.refresh(&mut app);
    assert_eq!(app.clear_confirmation, ClearConfirmation::Closed);
    app.connected = true;
    daemon.keys(&mut app, &[KeyCode::Char('y')]);
    assert_eq!(app.clear_confirmation, ClearConfirmation::Closed);
}

#[test]
fn renders_stable_wide_and_narrow_layouts() {
    for (width, expected) in [(100, "Decision detail"), (36, "Pending approvals")] {
        let mut app = App::new("/tmp/unreachable-control.sock", 0);
        app.connected = true;
        app.approvals.push(approval());
        app.selected = Some(0);
        let text = rendered(&mut app, width, 12);
        assert!(text.contains(expected));
        if width == 36 {
            assert!(text.contains('…'));
        }
    }
}

#[test]
fn enter_never_approves_and_nul_only_reason_stays_in_editor() {
    let mut daemon = Daemon::new();
    let mut app = App::new("/tmp/unreachable-control.sock", 0);
    app.approvals.push(approval());
    app.selected = Some(0);
    let outcome = handle_key(&mut app, KeyEvent::new(KeyCode::Enter, none()), 0);
    assert!(!outcome.quit);
    assert!(outcome.action.is_none());

    app.reason = Some(ReasonInput {
        approval_id: ID.parse::<ApprovalId>().unwrap(),
        value: "\0\0".to_owned(),
        error: None,
    });
    assert!(!daemon.key(&mut app, KeyEvent::new(KeyCode::Enter, none())));
    assert!(app.reason.as_ref().unwrap().error.is_some());
}

#[test]
fn rule_shortcuts_open_drafts_and_require_explicit_submission() {
    let mut daemon = Daemon::new();
    for key in ['p', 'P', 'A', 'r'] {
        let submission = daemon.submit(capability(&key.to_string(), "/work"));
        let mut app = App::new("/run/control.sock", daemon.now);
        daemon.refresh(&mut app);
        assert_eq!(app.selected_id(), Some(submission.approval_id.clone()));
        for modifiers in [control(), alt()] {
            daemon.key(&mut app, KeyEvent::new(KeyCode::Char(key), modifiers));
        }
        daemon.key(
            &mut app,
            KeyEvent::new_with_kind(KeyCode::Char(key), none(), KeyEventKind::Repeat),
        );
        assert_eq!(daemon.broker.session_rule_count(), 0);
        assert_eq!(daemon.pending(), 1);
        daemon.key(&mut app, KeyEvent::new(KeyCode::Char(key), none()));
        assert!(app.editing.is_some());
        assert_eq!(daemon.pending(), 1);
        assert_eq!(daemon.broker.session_rule_count(), 0);
        // Former form controls must never submit a rule.
        daemon.keys(&mut app, &[KeyCode::Enter, KeyCode::Tab, KeyCode::Tab]);
        assert_eq!(daemon.broker.session_rule_count(), 0);
        for width in [40, 60, 80, 100] {
            let text = rendered(&mut app, width, 30);
            assert!(text.contains("Rule scope"));
            assert!(text.contains("Source request"));
            assert!(text.contains("remember"));
        }
        let action = if key == 'A' || key == 'r' { 'a' } else { 'd' };
        daemon.key(&mut app, KeyEvent::new(KeyCode::Char(action), none()));
        assert!(app.editing.is_none());
        let told = daemon.broker.take_completions();
        assert_eq!(
            told[0].decision == Some(WebhookDecision::Granted),
            key == 'A' || key == 'r'
        );
        daemon.refresh(&mut app);
        assert_eq!(app.session_rule_count, 1);
        assert!(app.status.contains("remembered"));
        assert!(matches!(
            daemon
                .broker
                .ingress(capability(&format!("{key}-probe"), "/work"), at(daemon.now))
                .unwrap(),
            IngressOutcome::Automatic(_)
        ));
        for width in [36, 100] {
            assert!(rendered(&mut app, width, 14).contains("rules:"));
        }
        assert!(matches!(
            daemon.ask(app.client.clear_session_rules()),
            Ok(ControlReply::Cleared(1))
        ));
    }
    let submission = daemon.submit(received(KnownApprovalRequest::Command {
        request_id: "c".to_owned(),
        command: "date".to_owned(),
        args: Vec::new(),
        caller: "test".to_owned(),
        intercept_rule: "test".to_owned(),
        reason: None,
        child_pid: 1,
        session_id: "s".to_owned(),
    }));
    let mut app = App::new("/run/control.sock", daemon.now);
    daemon.refresh(&mut app);
    daemon.key(&mut app, KeyEvent::new(KeyCode::Char('A'), none()));
    daemon.refresh(&mut app);
    assert!(app.status.contains("capability request"));
    assert_eq!(app.session_rule_count, 0);
    assert_eq!(app.selected_id(), Some(submission.approval_id.clone()));
}

#[test]
fn file_request_can_create_project_tree_rule_without_mutating_source() {
    let mut daemon = Daemon::new();
    let submission = daemon.submit(capability("source", "/path/to/project/src/main.rs"));
    let mut app = App::new("/run/control.sock", 0);
    daemon.refresh(&mut app);
    daemon.keys(
        &mut app,
        &[KeyCode::Char('r'), KeyCode::Left, KeyCode::Char('h')],
    );
    assert_eq!(
        app.editing.as_ref().unwrap().editor.draft().path,
        "/path/to/project"
    );
    assert_eq!(
        app.editing.as_ref().unwrap().editor.draft().scope,
        RuleScope::Directory
    );
    assert!(app.editing.as_ref().unwrap().blocked().is_none());
    // A local wall-clock countdown is not the daemon's monotonic approval lease.
    app.editing.as_mut().unwrap().deadline = "1970-01-01T00:00:00Z".to_owned();
    assert!(app.editing.as_ref().unwrap().blocked().is_none());
    app.debug_capture = DebugCaptureStatus::Failed {
        error_category: "io:Other".to_owned(),
    };
    for width in [40, 60, 80, 100] {
        let text = rendered(&mut app, width, 30);
        assert!(text.contains("Rule scope"));
        assert!(text.contains("a approve + remember"));
        assert!(text.contains("capture: failed"));
    }
    assert_eq!(
        app.editing.as_ref().unwrap().request,
        capability("source", "/path/to/project/src/main.rs").request
    );
    daemon.keys(&mut app, &[KeyCode::Char('a')]);
    let told = daemon.broker.take_completions();
    assert_eq!(told[0].approval_id, submission.approval_id);
    assert_eq!(told[0].decision, Some(WebhookDecision::Granted));
    assert!(matches!(
        daemon
            .broker
            .ingress(
                capability("sibling", "/path/to/project/tests/test.rs"),
                at(0)
            )
            .unwrap(),
        IngressOutcome::Automatic(WebhookDecision::Granted)
    ));
}

#[test]
fn selector_resize_keeps_controls_visible_and_blocks_hidden_decisions() {
    let mut daemon = Daemon::new();
    let submission = daemon.submit(capability("source", "/work/main.rs"));
    let mut app = App::new("/run/control.sock", 0);
    daemon.refresh(&mut app);
    daemon.keys(&mut app, &[KeyCode::Char('r')]);
    for (width, height) in [(120, 30), (80, 24), (60, 24), (40, 22)] {
        let text = rendered(&mut app, width, height);
        for expected in [
            "/work/main.rs",
            "Exact path",
            "Left/h",
            "Right/l",
            "Esc back",
            "a approve",
            "d deny",
            "Space",
        ] {
            assert!(
                text.contains(expected),
                "missing {expected} at {width}x{height}"
            );
        }
        daemon.keys(&mut app, &[KeyCode::Left, KeyCode::Left]);
        let text = rendered(&mut app, width, height);
        assert!(
            text.contains("Warning: all absolute paths"),
            "root warning at {width}x{height}"
        );
        daemon.keys(&mut app, &[KeyCode::Right, KeyCode::Right]);
    }
    for (width, height) in [(39, 24), (80, 21)] {
        assert!(rendered(&mut app, width, height).contains("need 40x22"));
        daemon.keys(
            &mut app,
            &[KeyCode::Char('a'), KeyCode::Char('d'), KeyCode::Left],
        );
        assert_eq!(daemon.broker.session_rule_count(), 0);
        assert_eq!(daemon.pending(), 1);
        assert_eq!(
            app.editing.as_ref().unwrap().editor.draft().path,
            "/work/main.rs"
        );
    }
    assert!(rendered(&mut app, 60, 24).contains("a approve"));
    // A transient submission error must not prevent an explicit retry.
    app.editing.as_mut().unwrap().error = Some("Session rule failed: transient error".to_owned());
    daemon.keys(&mut app, &[KeyCode::Char('d')]);
    assert!(app.editing.is_none());
    assert_eq!(daemon.broker.session_rule_count(), 1);
    let told = daemon.broker.take_completions();
    assert_eq!(told[0].approval_id, submission.approval_id);
    assert!(matches!(
        told[0].decision,
        Some(WebhookDecision::Denied { .. })
    ));
    let next = daemon.submit(capability("next", "/other/path"));
    daemon.refresh(&mut app);
    for action in ['a', 'd', 'D'] {
        daemon.key(
            &mut app,
            KeyEvent::new_with_kind(KeyCode::Char(action), none(), KeyEventKind::Repeat),
        );
        daemon.key(&mut app, KeyEvent::new(KeyCode::Char(action), alt()));
    }
    assert_eq!(app.selected_id(), Some(next.approval_id.clone()));
    assert_eq!(daemon.pending(), 1);
    assert!(app.reason.is_none());
}

#[test]
fn draft_is_cancelable_and_never_rebinds_when_source_disappears() {
    let mut daemon = Daemon::new();
    let source = daemon.submit(capability("source", "/work/\u{1b}[31m/main.rs"));
    let mut app = App::new("/run/control.sock", 0);
    daemon.refresh(&mut app);
    daemon.keys(&mut app, &[KeyCode::Char('r'), KeyCode::Char('C')]);
    assert_eq!(app.clear_confirmation, ClearConfirmation::Closed);
    assert_eq!(
        app.editing.as_ref().unwrap().editor.draft().path,
        "/work/\u{1b}[31m/main.rs"
    );
    daemon.keys(&mut app, &[KeyCode::Esc]);
    assert!(app.editing.is_none());
    assert_eq!(daemon.broker.session_rule_count(), 0);
    daemon.keys(&mut app, &[KeyCode::Char('r')]);
    let next = daemon.submit(capability("next", "/work/other.rs"));
    daemon
        .broker
        .decide(&source.approval_id, WebhookDecision::Granted, at(0))
        .unwrap();
    daemon.refresh(&mut app);
    assert_eq!(app.selected_id(), None);
    assert!(!app.editing.as_ref().unwrap().available);
    daemon.keys(&mut app, &[KeyCode::Char('a'), KeyCode::Char('d')]);
    assert!(app
        .editing
        .as_ref()
        .unwrap()
        .blocked()
        .unwrap()
        .contains("no longer pending"));
    assert_eq!(daemon.broker.session_rule_count(), 0);
    assert!(matches!(
        daemon.broker.show(&next.approval_id, at(0)).unwrap(),
        ShowApproval::Pending(_)
    ));
    app.disconnect(0);
    assert!(app.editing.is_none());
    daemon.refresh(&mut app);
    assert!(app.editing.is_none());
    assert_eq!(app.selected_id(), Some(next.approval_id.clone()));
}

#[test]
fn save_flow_sets_status_deadline_on_success_and_failure() {
    let mut daemon = Daemon::new();
    let mut app = App::new("/run/control.sock", 0);
    daemon.refresh(&mut app);

    // Failure paths must set the status deadline like the success path.
    daemon.save(&mut app, "/definitely/not/created/policy.toml");
    assert_eq!(app.status, "Save rules failed: no session rules");
    assert!(app.status_until >= 3 * SECOND);

    daemon
        .ask(app.client.replace_session_rules(vec![RuleDraft {
            action: RuleAction::Allow,
            path: "/work".to_owned(),
            scope: RuleScope::Directory,
            access: AccessMode::Read,
        }]))
        .unwrap();
    daemon.save(&mut app, "/tmp/saved.toml");
    assert!(
        app.status.contains("Saved session rules to"),
        "{}",
        app.status
    );

    // Existing files are never overwritten, and the failure still sets the deadline.
    daemon.now = 10 * SECOND;
    app.save_session_rules(Err("File exists".to_owned()), daemon.now);
    assert!(app.status.contains("Save rules failed"), "{}", app.status);
    assert!(app.status_until >= 13 * SECOND);
}

#[test]
fn selection_follows_the_approval() {
    let mut daemon = Daemon::new();
    let first = daemon.submit(capability("1", "/1"));
    daemon.now = SECOND;
    let second = daemon.submit(capability("2", "/2"));
    daemon.now = 2 * SECOND;
    let third = daemon.submit(capability("3", "/3"));
    let mut app = App::new("/run/control.sock", daemon.now);
    daemon.refresh(&mut app);
    assert_eq!(app.selected_id(), Some(first.approval_id.clone()));
    daemon.keys(&mut app, &[KeyCode::Char('j'), KeyCode::Down, KeyCode::Down]);
    assert_eq!(app.selected_id(), Some(third.approval_id.clone()));
    daemon
        .broker
        .decide(&first.approval_id, WebhookDecision::Granted, at(daemon.now))
        .unwrap();
    daemon.refresh(&mut app);
    assert_eq!(app.selected, Some(1));
    assert_eq!(app.selected_id(), Some(third.approval_id.clone()));
    assert_eq!(app.detail.as_ref().unwrap().approval_id, third.approval_id);
    daemon
        .broker
        .decide(&third.approval_id, WebhookDecision::Granted, at(daemon.now))
        .unwrap();
    daemon.refresh(&mut app);
    assert_eq!(app.selected_id(), Some(second.approval_id.clone()));
    daemon.keys(&mut app, &[KeyCode::Char('a')]);
    assert_eq!(
        app.status,
        format!("{}: Granted", second.approval_id.as_str())
    );
    daemon.refresh(&mut app);
    assert_eq!(app.selected_id(), None);
    assert!(app.detail.is_none());
    daemon.now += 5 * SECOND;
    daemon.refresh(&mut app);
    assert_eq!(app.status, "Waiting for approval requests…");
    assert_eq!(app.next_poll, daemon.now + SECOND / 2);
}

#[test]
fn reasons_are_typed_for_one_approval() {
    let mut daemon = Daemon::new();
    let source = daemon.submit(capability("1", "/1"));
    let mut app = App::new("/run/control.sock", 0);
    daemon.refresh(&mut app);
    daemon.key(&mut app, KeyEvent::new(KeyCode::Char('D'), shift()));
    daemon.keys(
        &mut app,
        &[
            KeyCode::Char('n'),
            KeyCode::Char('o'),
            KeyCode::Char('x'),
            KeyCode::Backspace,
        ],
    );
    assert_eq!(footer_message(&app), "Deny reason: no");
    daemon.key(&mut app, KeyEvent::new(KeyCode::Char('v'), control()));
    assert_eq!(
        footer_message(&app),
        "Deny reason: no · Reason is limited to 4 KiB"
    );
    daemon.keys(&mut app, &[KeyCode::Enter]);
    let told = daemon.broker.take_completions();
    assert_eq!(told[0].approval_id, source.approval_id);
    assert_eq!(
        told[0].decision,
        Some(WebhookDecision::Denied {
            reason: "no".to_owned()
        })
    );
    app.reason = Some(ReasonInput {
        approval_id: source.approval_id.clone(),
        value: "é".repeat(2048),
        error: None,
    });
    daemon.keys(&mut app, &[KeyCode::Char('y')]);
    assert_eq!(app.reason.as_ref().unwrap().value.len(), 4096);
    daemon.keys(&mut app, &[KeyCode::Enter]);
    assert!(app.status.starts_with("Decision failed:"), "{}", app.status);
    app.reason = Some(ReasonInput {
        approval_id: source.approval_id,
        value: "x".to_owned(),
        error: None,
    });
    daemon.keys(&mut app, &[KeyCode::Esc]);
    assert!(app.reason.is_none());
}

#[test]
fn scrolling_is_bounded() {
    let mut daemon = Daemon::new();
    let mut app = App::new("/run/control.sock", 0);
    daemon.keys(&mut app, &[KeyCode::PageUp]);
    assert_eq!(app.detail_scroll, 0);
    daemon.keys(&mut app, &[KeyCode::PageDown]);
    daemon.key(&mut app, KeyEvent::new(KeyCode::Char('d'), control()));
    assert_eq!(app.detail_scroll, 30);
    daemon.key(&mut app, KeyEvent::new(KeyCode::Char('u'), control()));
    assert_eq!(app.detail_scroll, 20);
    daemon.keys(&mut app, &[KeyCode::Char('G'), KeyCode::PageDown]);
    assert_eq!(app.detail_scroll, u16::MAX);
    daemon.keys(&mut app, &[KeyCode::Char('g')]);
    assert_eq!(app.detail_scroll, 0);
    assert!(daemon.key(&mut app, KeyEvent::new(KeyCode::Char('q'), none())));
    daemon.keys(&mut app, &[KeyCode::Tab]);
    assert!(app.show_detail_panel);
    assert_eq!(render(&mut app, 60, 20).panes, Panes::Detail);
}

#[test]
fn names_are_typed_and_resolved() {
    let mut daemon = Daemon::new();
    let mut app = App::new("/run/control.sock", 0);
    daemon.refresh(&mut app);
    daemon.key(&mut app, KeyEvent::new(KeyCode::Char('S'), shift()));
    daemon.keys(&mut app, &[KeyCode::Enter]);
    assert_eq!(
        footer_message(&app),
        "Save rules to file:  · Path must not be empty | Enter save · Esc cancel"
    );
    daemon.keys(
        &mut app,
        &[KeyCode::Char('w'), KeyCode::Char('q'), KeyCode::Backspace],
    );
    let dialog = render_save_dialog(&app, 80, 24).unwrap();
    assert_eq!(dialog.input, "File name or path: w");
    assert_eq!(dialog.message, "Enter save · Esc cancel");
    assert_eq!(
        dialog.area,
        Area {
            x: 4,
            y: 8,
            width: 72,
            height: 8
        }
    );
    assert_eq!((dialog.cursor_x, dialog.cursor_y), (25, 9));
    daemon.keys(&mut app, &[KeyCode::Enter]);
    assert!(app.save.is_none());
    assert_eq!(app.status, "Save rules failed: no session rules");
    app.save = Some(SaveInput {
        value: "x".to_owned(),
        error: None,
    });
    daemon.keys(&mut app, &[KeyCode::Esc]);
    assert!(render_save_dialog(&app, 80, 24).is_none());
    for (value, path) in [
        ("work", "/config/work.toml"),
        ("work.toml", "/config/work.toml"),
        ("./work", "./work"),
        ("../work", "../work"),
        ("/abs/work", "/abs/work"),
        ("sub/work", "sub/work"),
        ("work/", "/config/work/.toml"),
        ("a/.", "/config/a/..toml"),
    ] {
        assert_eq!(resolve_save_path(value, "/config"), path);
    }
}

#[test]
fn leases_count_down() {
    assert_eq!(countdown_text(0), "0m 00s");
    assert_eq!(countdown_text(269), "4m 29s");
    let wall = 1_785_153_600 * SECOND;
    assert_eq!(lease_remaining("2026-07-27T12:04:30Z", wall), "4m 30s");
    assert_eq!(lease_remaining("2026-07-27T12:04:30Z", wall + 1), "4m 29s");
    assert_eq!(lease_remaining("1970-01-01T00:00:00Z", wall), "0m 00s");
    assert_eq!(lease_remaining("soon", wall), "unknown");
}

#[test]
fn footers_tell_of_capture_and_rules() {
    let mut app = App::new("/run/control.sock", 0);
    assert_eq!(
        footer_message(&app),
        "Disconnected — waiting for daemon… · session rules: 0"
    );
    app.connected = true;
    app.session_rule_count = 12;
    app.status = "ok\u{7}".to_owned();
    app.debug_capture = DebugCaptureStatus::Enabled {
        path: "/x".to_owned(),
    };
    assert_eq!(
        footer_message(&app),
        "C clear rules | ok\\x07 · session rules: 12 · debug capture: enabled"
    );
    assert_eq!(
        centered_rect(
            10,
            4,
            Area {
                x: 1,
                y: 1,
                width: 8,
                height: 20
            }
        ),
        Area {
            x: 2,
            y: 9,
            width: 6,
            height: 4
        }
    );
    assert_eq!(InteractiveError::Io("x".to_owned()).message(), "x");
}

#[test]
fn queue_lines_fit_between_the_borders() {
    let mut app = App::new("/run/control.sock", 0);
    app.approvals.push(approval());
    assert_eq!(render_queue(&app, 30), ["command · a very long reque…"]);
    app.approvals[0].capability_type = "能力".to_owned();
    assert_eq!(render_queue(&app, 20), ["能力 · a very lon…"]);
    assert_eq!(render_queue(&app, 5), ["能力 · "]);
}

#[test]
fn decisions_are_sent_as_typed() {
    let mut app = App::new("/run/control.sock", 0);
    app.approvals.push(approval());
    app.selected = Some(0);
    let outcome = handle_key(&mut app, KeyEvent::new(KeyCode::Char('d'), none()), 0);
    assert!(matches!(
        outcome.action,
        Some(Action::Decide { approval_id, decision: DecisionRequest::Denied { reason } })
            if approval_id.as_str() == ID && reason == "denied by local user"
    ));
    let outcome = handle_key(&mut app, KeyEvent::new(KeyCode::Char('a'), shift()), 0);
    assert!(matches!(
        outcome.action,
        Some(Action::Decide { decision: DecisionRequest::Granted, .. })
    ));
}

#[test]
fn two_panes_share_the_width() {
    for (width, left) in [(90, 34), (100, 38), (120, 46), (125, 48), (0, 0), (1, 0), (65535, 24903)] {
        assert_eq!(left_width(width), left);
    }
}
