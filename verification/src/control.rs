//! The owner's control interface: its routes, its answers, and the requests of its clients.
use vstd::prelude::*;
use vstd::string::StringExecFns;

use crate::broker::{
    decision_error, decision_for, is_approval_id, pending_position, state_for, summary_models,
    tombstone_position, ApprovalDetail, ApprovalDetailModel, ApprovalId, ApprovalSummary, Broker,
    BrokerError, BrokerErrorModel, BrokerModel, CompletedApproval, PendingModel,
    ShowApproval, ShowModel, SummaryModel, TerminalState,
};
use crate::clock::{Moment, SECOND};
use crate::debug_capture::CaptureStatusModel;
use crate::display::{DetailModel, FieldModel};
use crate::policy::{
    draft_models, policy_of, DraftModel, PolicyErrorModel, RuleAction, RuleDraft,
    RuleScope, MAX_SESSION_RULES,
};
use crate::protocol::{DecisionModel, WebhookDecision};
use crate::text::{
    begins_with, contains, decimal, decimal_text, ends_with, same, strip_prefix, strip_suffix,
    text_option, with_detail,
};

pub use crate::debug_capture::DebugCaptureStatus;

verus! {

/// The largest body of a decision, in bytes.
pub const MAX_CONTROL_BODY_BYTES: usize = 8192;

/// The largest body of a rule set, in bytes.
pub const MAX_SESSION_RULES_BODY_BYTES: usize = 1048576;

// ---------------------------------------------------------------------------
// What is sent
// ---------------------------------------------------------------------------

/// What the daemon tells about itself.
#[derive(Debug, PartialEq, Eq)]
pub struct DaemonStatus {
    pub version: String,
    pub uptime_seconds: u64,
    pub pending: usize,
    pub max_pending: usize,
    pub max_per_session: usize,
    pub webhook_listen: String,
    pub debug_capture: DebugCaptureStatus,
    pub session_rule_count: usize,
}

/// The contents of a [`DaemonStatus`].
pub struct StatusModel {
    pub version: Seq<char>,
    pub uptime_seconds: u64,
    pub pending: int,
    pub max_pending: usize,
    pub max_per_session: usize,
    pub webhook_listen: Seq<char>,
    pub debug_capture: CaptureStatusModel,
    pub session_rule_count: int,
}

impl View for DaemonStatus {
    type V = StatusModel;

    open spec fn view(&self) -> StatusModel {
        StatusModel {
            version: self.version@,
            uptime_seconds: self.uptime_seconds,
            pending: self.pending as int,
            max_pending: self.max_pending,
            max_per_session: self.max_per_session,
            webhook_listen: self.webhook_listen@,
            debug_capture: self.debug_capture@,
            session_rule_count: self.session_rule_count as int,
        }
    }
}

/// The queue.
#[derive(Debug, PartialEq, Eq)]
pub struct ApprovalList {
    pub approvals: Vec<ApprovalSummary>,
}

/// One approval, pending or completed.
#[derive(Debug, PartialEq, Eq)]
pub enum ApprovalView {
    Pending(ApprovalDetail),
    Completed(CompletedApproval),
}

impl View for ApprovalView {
    type V = ShowModel;

    open spec fn view(&self) -> ShowModel {
        match *self {
            ApprovalView::Pending(detail) => ShowModel::Pending(detail@),
            ApprovalView::Completed(completed) => ShowModel::Completed(completed@),
        }
    }
}

/// A decision as a client sends it.
#[derive(Debug, PartialEq, Eq)]
pub enum DecisionRequest {
    Granted,
    Denied { reason: String },
}

impl View for DecisionRequest {
    type V = DecisionModel;

    open spec fn view(&self) -> DecisionModel {
        match *self {
            DecisionRequest::Granted => DecisionModel::Granted,
            DecisionRequest::Denied { reason } => DecisionModel::Denied { reason: reason@ },
        }
    }
}

impl Clone for DecisionRequest {
    fn clone(&self) -> (result: Self)
        ensures
            result@ == self@,
    {
        match self {
            DecisionRequest::Granted => DecisionRequest::Granted,
            DecisionRequest::Denied { reason } => DecisionRequest::Denied {
                reason: reason.clone(),
            },
        }
    }
}

/// What a decision led to.
#[derive(Debug, PartialEq, Eq)]
pub struct DecisionResponse {
    pub approval_id: ApprovalId,
    pub state: TerminalState,
}

/// A decision to remember as a client sends it. The access mode is the request's own.
#[derive(Debug, PartialEq, Eq)]
pub struct SessionRuleRequest {
    pub action: RuleAction,
    pub scope: RuleScope,
    pub reason: Option<String>,
    pub path: Option<String>,
}

/// The contents of a [`SessionRuleRequest`].
pub struct SessionRuleModel {
    pub action: RuleAction,
    pub scope: RuleScope,
    pub reason: Option<Seq<char>>,
    pub path: Option<Seq<char>>,
}

impl View for SessionRuleRequest {
    type V = SessionRuleModel;

    open spec fn view(&self) -> SessionRuleModel {
        SessionRuleModel {
            action: self.action,
            scope: self.scope,
            reason: text_option(self.reason),
            path: text_option(self.path),
        }
    }
}

// ---------------------------------------------------------------------------
// Routes
// ---------------------------------------------------------------------------

/// The methods that the interface knows.
#[derive(Clone, Copy, Debug, PartialEq, Eq, Structural)]
pub enum ControlMethod {
    Get,
    Post,
    Put,
    Delete,
    Other,
}

/// What a request asks for.
#[derive(Debug)]
pub enum Route {
    Status,
    List,
    Show { approval_id: ApprovalId, debug: bool },
    Decide { approval_id: ApprovalId },
    Remember { approval_id: ApprovalId },
    SessionRules,
    ReplaceSessionRules,
    ClearSessionRules,
    InvalidId,
    Unknown,
}

/// The contents of a [`Route`].
pub enum RouteModel {
    Status,
    List,
    Show { approval_id: Seq<char>, debug: bool },
    Decide { approval_id: Seq<char> },
    Remember { approval_id: Seq<char> },
    SessionRules,
    ReplaceSessionRules,
    ClearSessionRules,
    InvalidId,
    Unknown,
}

impl View for Route {
    type V = RouteModel;

    open spec fn view(&self) -> RouteModel {
        match *self {
            Route::Status => RouteModel::Status,
            Route::List => RouteModel::List,
            Route::Show { approval_id, debug } => RouteModel::Show {
                approval_id: approval_id@,
                debug,
            },
            Route::Decide { approval_id } => RouteModel::Decide { approval_id: approval_id@ },
            Route::Remember { approval_id } => RouteModel::Remember { approval_id: approval_id@ },
            Route::SessionRules => RouteModel::SessionRules,
            Route::ReplaceSessionRules => RouteModel::ReplaceSessionRules,
            Route::ClearSessionRules => RouteModel::ClearSessionRules,
            Route::InvalidId => RouteModel::InvalidId,
            Route::Unknown => RouteModel::Unknown,
        }
    }
}

/// What a request about one approval asks for, given what follows `/v1/approvals/` in its path.
pub open spec fn approval_route(
    method: ControlMethod,
    remainder: Seq<char>,
    query: Option<Seq<char>>,
) -> RouteModel {
    if method == ControlMethod::Get && !remainder.contains('/') {
        if is_approval_id(remainder) {
            RouteModel::Show { approval_id: remainder, debug: query == Some("debug=true"@) }
        } else {
            RouteModel::InvalidId
        }
    } else if method == ControlMethod::Post && ends_with(remainder, "/decision"@) {
        let id = remainder.take(remainder.len() - "/decision"@.len());
        if is_approval_id(id) {
            RouteModel::Decide { approval_id: id }
        } else {
            RouteModel::InvalidId
        }
    } else if method == ControlMethod::Post && ends_with(remainder, "/session-rule"@) {
        let id = remainder.take(remainder.len() - "/session-rule"@.len());
        if is_approval_id(id) {
            RouteModel::Remember { approval_id: id }
        } else {
            RouteModel::InvalidId
        }
    } else {
        RouteModel::Unknown
    }
}

/// What a request asks for.
pub open spec fn route_of(
    method: ControlMethod,
    path: Seq<char>,
    query: Option<Seq<char>>,
) -> RouteModel {
    if method == ControlMethod::Get && path == "/v1/status"@ {
        RouteModel::Status
    } else if method == ControlMethod::Get && path == "/v1/approvals"@ {
        RouteModel::List
    } else if path == "/v1/session-rules"@ {
        match method {
            ControlMethod::Get => RouteModel::SessionRules,
            ControlMethod::Put => RouteModel::ReplaceSessionRules,
            ControlMethod::Delete => RouteModel::ClearSessionRules,
            _ => RouteModel::Unknown,
        }
    } else if begins_with(path, "/v1/approvals/"@) {
        approval_route(method, path.skip("/v1/approvals/"@.len() as int), query)
    } else {
        RouteModel::Unknown
    }
}

/// Routes a request about one approval.
fn route_approval(method: ControlMethod, remainder: &str, query: Option<&str>) -> (result: Route)
    ensures
        result@ == approval_route(
            method,
            remainder@,
            match query {
                Some(text) => Some(text@),
                None => None,
            },
        ),
{
    if method == ControlMethod::Get && !contains(remainder, '/') {
        let debug = match query {
            Some(text) => same(text, "debug=true"),
            None => false,
        };
        return match ApprovalId::parse(remainder) {
            Ok(approval_id) => Route::Show { approval_id, debug },
            Err(_) => Route::InvalidId,
        };
    }
    if method == ControlMethod::Post {
        if let Some(id) = strip_suffix(remainder, "/decision") {
            return match ApprovalId::parse(id.as_str()) {
                Ok(approval_id) => Route::Decide { approval_id },
                Err(_) => Route::InvalidId,
            };
        }
        if let Some(id) = strip_suffix(remainder, "/session-rule") {
            return match ApprovalId::parse(id.as_str()) {
                Ok(approval_id) => Route::Remember { approval_id },
                Err(_) => Route::InvalidId,
            };
        }
    }
    Route::Unknown
}

/// Routes a request.
pub fn route(method: ControlMethod, path: &str, query: Option<&str>) -> (result: Route)
    ensures
        result@ == route_of(
            method,
            path@,
            match query {
                Some(text) => Some(text@),
                None => None,
            },
        ),
{
    if method == ControlMethod::Get && same(path, "/v1/status") {
        return Route::Status;
    }
    if method == ControlMethod::Get && same(path, "/v1/approvals") {
        return Route::List;
    }
    if same(path, "/v1/session-rules") {
        return match method {
            ControlMethod::Get => Route::SessionRules,
            ControlMethod::Put => Route::ReplaceSessionRules,
            ControlMethod::Delete => Route::ClearSessionRules,
            _ => Route::Unknown,
        };
    }
    match strip_prefix(path, "/v1/approvals/") {
        Some(remainder) => route_approval(method, remainder.as_str(), query),
        None => Route::Unknown,
    }
}

// ---------------------------------------------------------------------------
// Answers
// ---------------------------------------------------------------------------

/// What the daemon knows besides its broker.
#[derive(Debug)]
pub struct ControlContext {
    pub started_at: u128,
    pub webhook_listen: String,
    pub max_pending: usize,
    pub max_per_session: usize,
    pub debug_capture: DebugCaptureStatus,
}

/// The value that a body was decoded to.
#[derive(Debug)]
pub enum ControlContent {
    Malformed,
    Decision(DecisionRequest),
    Rule(SessionRuleRequest),
    Rules(Vec<RuleDraft>),
}

/// A body: its length, unless it could not be read, and the value that it was decoded to.
#[derive(Debug)]
pub struct ControlBody {
    pub length: Option<usize>,
    pub content: ControlContent,
}

/// The contents of a [`ControlBody`] for an endpoint.
pub enum BodyModel {
    Malformed,
    TooLarge,
    Decision(DecisionModel),
    Rule(SessionRuleModel),
    Rules(Seq<DraftModel>),
}

impl ControlBody {
    /// The body as an endpoint with a limit takes it.
    pub open spec fn within(self, limit: usize) -> BodyModel {
        match self.length {
            None => BodyModel::Malformed,
            Some(length) => if length > limit {
                BodyModel::TooLarge
            } else {
                match self.content {
                    ControlContent::Malformed => BodyModel::Malformed,
                    ControlContent::Decision(decision) => BodyModel::Decision(decision@),
                    ControlContent::Rule(rule) => BodyModel::Rule(rule@),
                    ControlContent::Rules(rules) => BodyModel::Rules(draft_models(rules@)),
                }
            },
        }
    }
}

/// An answer: a status and, but for empty ones, a JSON body.
#[derive(Debug)]
pub enum ControlReply {
    Empty(u16),
    Error(u16, String),
    Status(DaemonStatus),
    List(ApprovalList),
    Approval(ApprovalView),
    Decided(DecisionResponse),
    Rules(Vec<RuleDraft>),
    Installed(usize),
    Cleared(usize),
}

/// The contents of a [`ControlReply`].
pub enum ReplyModel {
    Empty(u16),
    Error(u16, Seq<char>),
    Status(StatusModel),
    List(Seq<SummaryModel>),
    Approval(ShowModel),
    Decided { approval_id: Seq<char>, state: TerminalState },
    Rules(Seq<DraftModel>),
    Installed(int),
    Cleared(int),
}

impl View for ControlReply {
    type V = ReplyModel;

    open spec fn view(&self) -> ReplyModel {
        match *self {
            ControlReply::Empty(status) => ReplyModel::Empty(status),
            ControlReply::Error(status, error) => ReplyModel::Error(status, error@),
            ControlReply::Status(status) => ReplyModel::Status(status@),
            ControlReply::List(list) => ReplyModel::List(summary_models(list.approvals@)),
            ControlReply::Approval(view) => ReplyModel::Approval(view@),
            ControlReply::Decided(response) => ReplyModel::Decided {
                approval_id: response.approval_id@,
                state: response.state,
            },
            ControlReply::Rules(rules) => ReplyModel::Rules(draft_models(rules@)),
            ControlReply::Installed(count) => ReplyModel::Installed(count as int),
            ControlReply::Cleared(count) => ReplyModel::Cleared(count as int),
        }
    }
}

impl ControlReply {
    /// The HTTP status of the answer.
    pub open spec fn status_code(self) -> u16 {
        match self {
            ControlReply::Empty(status) => status,
            ControlReply::Error(status, _) => status,
            _ => 200,
        }
    }

    /// The HTTP status of the answer.
    pub fn status(&self) -> (result: u16)
        ensures
            result == self.status_code(),
    {
        match self {
            ControlReply::Empty(status) => *status,
            ControlReply::Error(status, _) => *status,
            _ => 200,
        }
    }
}

/// How long the daemon has run, in whole seconds.
pub open spec fn uptime(started_at: u128, now: Moment) -> u64 {
    let elapsed = if now.monotonic >= started_at {
        (now.monotonic - started_at) / (SECOND as int)
    } else {
        0
    };
    if elapsed > u64::MAX {
        u64::MAX
    } else {
        elapsed as u64
    }
}

/// The answer about the daemon itself.
pub open spec fn status_of(context: ControlContext, broker: BrokerModel, now: Moment) -> StatusModel {
    StatusModel {
        version: crate::VERSION@,
        uptime_seconds: uptime(context.started_at, now),
        pending: broker.pending.len() as int,
        max_pending: context.max_pending,
        max_per_session: context.max_per_session,
        webhook_listen: context.webhook_listen@,
        debug_capture: context.debug_capture@,
        session_rule_count: broker.rules.len() as int,
    }
}

/// What is told of a pending approval: debug data only to those who ask for it.
pub open spec fn told_of(detail: ApprovalDetailModel, debug: bool) -> ApprovalDetailModel {
    if debug {
        detail
    } else {
        ApprovalDetailModel {
            content: DetailModel { debug_fields: Seq::empty(), ..detail.content },
            debug: None,
            ..detail
        }
    }
}

/// The answer about one approval.
pub open spec fn shown_in(broker: BrokerModel, id: Seq<char>, debug: bool) -> ReplyModel {
    match pending_position(broker.pending, id) {
        Some(i) => ReplyModel::Approval(
            ShowModel::Pending(told_of(broker.pending[i].shown(), debug)),
        ),
        None => match tombstone_position(broker.tombstones, id) {
            Some(i) => ReplyModel::Approval(ShowModel::Completed(broker.tombstones[i].shown())),
            None => ReplyModel::Error(404, "approval not found"@),
        },
    }
}

/// The answer to a decision, given what the broker made of it.
pub open spec fn decision_reply(
    id: Seq<char>,
    outcome: Result<TerminalState, BrokerErrorModel>,
) -> ReplyModel {
    match outcome {
        Ok(state) => ReplyModel::Decided { approval_id: id, state },
        Err(BrokerErrorModel::NotPending) => ReplyModel::Error(
            409,
            "approval is no longer pending"@,
        ),
        Err(BrokerErrorModel::NotFound) => ReplyModel::Error(404, "approval not found"@),
        Err(BrokerErrorModel::EmptyDenialReason) | Err(BrokerErrorModel::DenialReasonTooLarge) =>
            ReplyModel::Error(400, "invalid denial reason"@),
        Err(BrokerErrorModel::Policy(error)) => ReplyModel::Error(400, error.message()),
        Err(_) => ReplyModel::Error(400, "decision rejected"@),
    }
}

/// The broker and the answer after a decision.
pub open spec fn decision_step(
    broker: BrokerModel,
    id: Seq<char>,
    decision: DecisionModel,
    now: Moment,
) -> (BrokerModel, ReplyModel) {
    match decision_error(decision) {
        Some(refusal) => (broker, decision_reply(id, Err(refusal))),
        None => match broker.refreshed(now).decided(id, decision, now) {
            Ok(after) => (after, decision_reply(id, Ok(state_for(decision)))),
            Err(refusal) => (broker.refreshed(now), decision_reply(id, Err(refusal))),
        },
    }
}

/// The broker and the answer after a decision that is remembered.
pub open spec fn remember_step(
    broker: BrokerModel,
    id: Seq<char>,
    rule: SessionRuleModel,
    now: Moment,
) -> (BrokerModel, ReplyModel) {
    let decision = decision_for(rule.action, rule.reason);
    if rule.action == RuleAction::Allow && rule.reason is Some {
        (broker, ReplyModel::Error(400, "invalid session rule body"@))
    } else {
        match decision_error(decision) {
            Some(refusal) => (broker, decision_reply(id, Err(refusal))),
            None => match broker.refreshed(now).remembered(
                id,
                rule.action,
                rule.scope,
                rule.path,
                rule.reason,
                now,
            ) {
                Ok(after) => (after, decision_reply(id, Ok(state_for(decision)))),
                Err(refusal) => (broker.refreshed(now), decision_reply(id, Err(refusal))),
            },
        }
    }
}

/// The broker and the answer after all rules were replaced.
pub open spec fn replace_step(broker: BrokerModel, drafts: Seq<DraftModel>) -> (
    BrokerModel,
    ReplyModel,
) {
    if drafts.len() > MAX_SESSION_RULES {
        (broker, ReplyModel::Error(400, PolicyErrorModel::Capacity.message()))
    } else {
        match policy_of(drafts) {
            Ok(rules) => (
                BrokerModel {
                    rules: Seq::new(rules.len(), |i: int| rules[i].compiled()),
                    ..broker
                },
                ReplyModel::Installed(drafts.len() as int),
            ),
            Err(refusal) => (broker, ReplyModel::Error(400, refusal.message())),
        }
    }
}

/// The broker and the answer after a request.
pub open spec fn step(
    context: ControlContext,
    broker: BrokerModel,
    route: RouteModel,
    body: ControlBody,
    now: Moment,
) -> (BrokerModel, ReplyModel) {
    let refreshed = broker.refreshed(now);
    match route {
        RouteModel::Status => (refreshed, ReplyModel::Status(status_of(context, refreshed, now))),
        RouteModel::List => (
            refreshed,
            ReplyModel::List(refreshed.pending.map_values(|entry: PendingModel| entry.summary())),
        ),
        RouteModel::Show { approval_id, debug } => (
            refreshed,
            shown_in(refreshed, approval_id, debug),
        ),
        RouteModel::Decide { approval_id } => match body.within(MAX_CONTROL_BODY_BYTES) {
            BodyModel::Decision(decision) => decision_step(broker, approval_id, decision, now),
            _ => (broker, ReplyModel::Error(400, "invalid decision body"@)),
        },
        RouteModel::Remember { approval_id } => match body.within(MAX_CONTROL_BODY_BYTES) {
            BodyModel::Rule(rule) => remember_step(broker, approval_id, rule, now),
            _ => (broker, ReplyModel::Error(400, "invalid session rule body"@)),
        },
        RouteModel::SessionRules => (
            broker,
            ReplyModel::Rules(Seq::new(broker.rules.len(), |i: int| broker.rules[i].draft())),
        ),
        RouteModel::ReplaceSessionRules => match body.within(MAX_SESSION_RULES_BODY_BYTES) {
            BodyModel::Rules(drafts) => replace_step(broker, drafts),
            BodyModel::TooLarge => (
                broker,
                ReplyModel::Error(413, "session rules body is too large"@),
            ),
            _ => (broker, ReplyModel::Error(400, "invalid session rules body"@)),
        },
        RouteModel::ClearSessionRules => (
            BrokerModel { rules: Seq::empty(), ..broker },
            ReplyModel::Cleared(broker.rules.len() as int),
        ),
        RouteModel::InvalidId => (broker, ReplyModel::Error(400, "invalid approval ID"@)),
        RouteModel::Unknown => (broker, ReplyModel::Empty(404)),
    }
}

/// Writes an error answer.
fn error_response(status: u16, error: &str) -> (result: ControlReply)
    ensures
        result@ == ReplyModel::Error(status, error@),
{
    ControlReply::Error(status, error.to_owned())
}

/// Answers what the daemon tells about itself.
fn status_response(context: &ControlContext, broker: &mut Broker, now: Moment) -> (result:
    ControlReply)
    requires
        old(broker)@.well_formed(),
        old(broker)@.config.reaches(now),
    ensures
        final(broker)@.well_formed(),
        final(broker)@ == old(broker)@.refreshed(now),
        result@ == ReplyModel::Status(status_of(*context, final(broker)@, now)),
{
    let pending = broker.pending_count(now);
    let elapsed: u128 = if now.monotonic >= context.started_at {
        (now.monotonic - context.started_at) / SECOND
    } else {
        0
    };
    let uptime_seconds: u64 = if elapsed > u64::MAX as u128 {
        u64::MAX
    } else {
        elapsed as u64
    };
    ControlReply::Status(
        DaemonStatus {
            version: crate::VERSION.to_owned(),
            uptime_seconds,
            pending,
            max_pending: context.max_pending,
            max_per_session: context.max_per_session,
            webhook_listen: context.webhook_listen.clone(),
            debug_capture: context.debug_capture.clone(),
            session_rule_count: broker.session_rule_count(),
        },
    )
}

/// Answers about one approval.
pub fn show_response(broker: &mut Broker, approval_id: &ApprovalId, debug: bool, now: Moment) -> (
    result: ControlReply)
    requires
        old(broker)@.well_formed(),
        old(broker)@.config.reaches(now),
    ensures
        final(broker)@.well_formed(),
        final(broker)@ == old(broker)@.refreshed(now),
        result@ == shown_in(final(broker)@, approval_id@, debug),
{
    match broker.show(approval_id, now) {
        Ok(ShowApproval::Pending(detail)) => {
            let mut detail = detail;
            if !debug {
                detail.content.debug_fields = Vec::new();
                detail.debug = None;
                assert(detail@.content.debug_fields =~= Seq::<FieldModel>::empty());
            }
            ControlReply::Approval(ApprovalView::Pending(detail))
        },
        Ok(ShowApproval::Completed(completed)) => ControlReply::Approval(
            ApprovalView::Completed(completed),
        ),
        Err(_) => error_response(404, "approval not found"),
    }
}

/// Answers what became of a decision.
fn outcome_response(approval_id: ApprovalId, outcome: Result<TerminalState, BrokerError>) -> (
    result: ControlReply)
    ensures
        result@ == decision_reply(
            approval_id@,
            match outcome {
                Ok(state) => Ok(state),
                Err(error) => Err(error@),
            },
        ),
{
    match outcome {
        Ok(state) => ControlReply::Decided(DecisionResponse { approval_id, state }),
        Err(BrokerError::NotPending) => error_response(409, "approval is no longer pending"),
        Err(BrokerError::NotFound) => error_response(404, "approval not found"),
        Err(BrokerError::EmptyDenialReason) | Err(BrokerError::DenialReasonTooLarge) =>
            error_response(400, "invalid denial reason"),
        Err(BrokerError::Policy(error)) => error_response(400, error.message().as_str()),
        Err(_) => error_response(400, "decision rejected"),
    }
}

/// Applies a decision and answers what became of it.
pub fn decision_response(
    broker: &mut Broker,
    approval_id: ApprovalId,
    decision: DecisionRequest,
    now: Moment,
) -> (result: ControlReply)
    requires
        old(broker)@.well_formed(),
        old(broker)@.config.reaches(now),
    ensures
        final(broker)@.well_formed(),
        (final(broker)@, result@) == decision_step(old(broker)@, approval_id@, decision@, now),
{
    let decision = match decision {
        DecisionRequest::Granted => WebhookDecision::Granted,
        DecisionRequest::Denied { reason } => WebhookDecision::Denied { reason },
    };
    let outcome = broker.decide(&approval_id, decision, now);
    outcome_response(approval_id, outcome)
}

/// Applies a decision, remembers it and answers what became of it.
pub fn remember_response(
    broker: &mut Broker,
    approval_id: ApprovalId,
    rule: SessionRuleRequest,
    now: Moment,
) -> (result: ControlReply)
    requires
        old(broker)@.well_formed(),
        old(broker)@.config.reaches(now),
    ensures
        final(broker)@.well_formed(),
        (final(broker)@, result@) == remember_step(old(broker)@, approval_id@, rule@, now),
{
    if rule.action == RuleAction::Allow && rule.reason.is_some() {
        return error_response(400, "invalid session rule body");
    }
    let outcome = broker.decide_and_remember(
        &approval_id,
        rule.action,
        rule.scope,
        rule.path,
        rule.reason,
        now,
    );
    outcome_response(approval_id, outcome)
}

/// Replaces all rules and answers what became of it.
fn replace_response(broker: &mut Broker, rules: Vec<RuleDraft>) -> (result: ControlReply)
    requires
        old(broker)@.well_formed(),
    ensures
        final(broker)@.well_formed(),
        (final(broker)@, result@) == replace_step(old(broker)@, draft_models(rules@)),
{
    match broker.replace_session_rules(rules) {
        Ok(count) => ControlReply::Installed(count),
        Err(error) => error_response(400, error.message().as_str()),
    }
}

/// Whether a body was read and is within a limit.
fn fits(body: &ControlBody, limit: usize) -> (result: bool)
    ensures
        result == (body.length matches Some(length) && length <= limit),
{
    match body.length {
        Some(length) => length <= limit,
        None => false,
    }
}

/// Answers a request.
pub fn handle(
    route: Route,
    body: ControlBody,
    context: &ControlContext,
    broker: &mut Broker,
    now: Moment,
) -> (result: ControlReply)
    requires
        old(broker)@.well_formed(),
        old(broker)@.config.reaches(now),
    ensures
        final(broker)@.well_formed(),
        (final(broker)@, result@) == step(*context, old(broker)@, route@, body, now),
{
    match route {
        Route::Status => status_response(context, broker, now),
        Route::List => ControlReply::List(ApprovalList { approvals: broker.list(now) }),
        Route::Show { approval_id, debug } => show_response(broker, &approval_id, debug, now),
        Route::Decide { approval_id } => {
            if !fits(&body, MAX_CONTROL_BODY_BYTES) {
                return error_response(400, "invalid decision body");
            }
            match body.content {
                ControlContent::Decision(decision) => decision_response(
                    broker,
                    approval_id,
                    decision,
                    now,
                ),
                _ => error_response(400, "invalid decision body"),
            }
        },
        Route::Remember { approval_id } => {
            if !fits(&body, MAX_CONTROL_BODY_BYTES) {
                return error_response(400, "invalid session rule body");
            }
            match body.content {
                ControlContent::Rule(rule) => remember_response(broker, approval_id, rule, now),
                _ => error_response(400, "invalid session rule body"),
            }
        },
        Route::SessionRules => ControlReply::Rules(broker.session_rules()),
        Route::ReplaceSessionRules => {
            match body.length {
                None => return error_response(400, "invalid session rules body"),
                Some(length) => if length > MAX_SESSION_RULES_BODY_BYTES {
                    return error_response(413, "session rules body is too large");
                },
            }
            match body.content {
                ControlContent::Rules(rules) => replace_response(broker, rules),
                _ => error_response(400, "invalid session rules body"),
            }
        },
        Route::ClearSessionRules => ControlReply::Cleared(broker.clear_session_rules()),
        Route::InvalidId => error_response(400, "invalid approval ID"),
        Route::Unknown => ControlReply::Empty(404),
    }
}

// ---------------------------------------------------------------------------
// Clients
// ---------------------------------------------------------------------------

/// The body of a client's request.
#[derive(Debug)]
pub enum ClientBody {
    Empty,
    Decision(DecisionRequest),
    Rule(SessionRuleRequest),
    Rules(Vec<RuleDraft>),
}

/// A client's request.
#[derive(Debug)]
pub struct ClientRequest {
    pub method: ControlMethod,
    pub path: String,
    pub query: Option<String>,
    pub body: ClientBody,
}

/// A client of the control interface.
#[derive(Debug)]
pub struct ControlClient {
    socket_path: String,
}

impl View for ControlClient {
    type V = Seq<char>;

    closed spec fn view(&self) -> Seq<char> {
        self.socket_path@
    }
}

/// The path of an approval.
pub open spec fn approval_path(id: Seq<char>, rest: Seq<char>) -> Seq<char> {
    "/v1/approvals/"@ + id + rest
}

/// Writes the path of an approval.
fn path_of(approval_id: &ApprovalId, rest: &str) -> (result: String)
    ensures
        result@ == approval_path(approval_id@, rest@),
        is_approval_id(approval_id@),
{
    let mut path = "/v1/approvals/".to_owned();
    path.append(approval_id.as_str());
    path.append(rest);
    path
}

impl ControlClient {
    /// A client that connects to the given socket.
    pub fn new(socket_path: &str) -> (result: Self)
        ensures
            result@ == socket_path@,
    {
        ControlClient { socket_path: socket_path.to_owned() }
    }

    /// Asks what the daemon tells about itself.
    pub fn status(&self) -> (result: ClientRequest)
        ensures
            result.body is Empty,
            route_of(result.method, result.path@, text_option(result.query)) == RouteModel::Status,
    {
        ClientRequest {
            method: ControlMethod::Get,
            path: "/v1/status".to_owned(),
            query: None,
            body: ClientBody::Empty,
        }
    }

    /// Asks for the queue.
    pub fn list(&self) -> (result: ClientRequest)
        ensures
            result.body is Empty,
            route_of(result.method, result.path@, text_option(result.query)) == RouteModel::List,
    {
        proof {
            reveal_strlit("/v1/status");
            reveal_strlit("/v1/approvals");
        }
        ClientRequest {
            method: ControlMethod::Get,
            path: "/v1/approvals".to_owned(),
            query: None,
            body: ClientBody::Empty,
        }
    }

    /// Asks for one approval.
    pub fn show(&self, approval_id: &ApprovalId, debug: bool) -> (result: ClientRequest)
        ensures
            result.body is Empty,
            route_of(result.method, result.path@, text_option(result.query)) == (RouteModel::Show {
                approval_id: approval_id@,
                debug,
            }),
    {
        let path = path_of(approval_id, "");
        proof {
            reveal_strlit("");
            requests_about_an_approval_are_routed(approval_id@);
            assert(path@ =~= approval_path(approval_id@, Seq::empty()));
        }
        ClientRequest {
            method: ControlMethod::Get,
            path,
            query: if debug {
                Some("debug=true".to_owned())
            } else {
                None
            },
            body: ClientBody::Empty,
        }
    }

    /// Sends one decision.
    pub fn decide(&self, approval_id: &ApprovalId, decision: &DecisionRequest) -> (result:
        ClientRequest)
        ensures
            result.body matches ClientBody::Decision(sent) && sent@ == decision@,
            route_of(result.method, result.path@, text_option(result.query))
                == (RouteModel::Decide { approval_id: approval_id@ }),
    {
        let path = path_of(approval_id, "/decision");
        proof {
            requests_about_an_approval_are_routed(approval_id@);
        }
        ClientRequest {
            method: ControlMethod::Post,
            path,
            query: None,
            body: ClientBody::Decision(decision.clone()),
        }
    }

    /// Sends one decision that is remembered.
    pub fn remember(&self, approval_id: &ApprovalId, rule: SessionRuleRequest) -> (result:
        ClientRequest)
        ensures
            result.body == ClientBody::Rule(rule),
            route_of(result.method, result.path@, text_option(result.query))
                == (RouteModel::Remember { approval_id: approval_id@ }),
    {
        let path = path_of(approval_id, "/session-rule");
        proof {
            requests_about_an_approval_are_routed(approval_id@);
        }
        ClientRequest {
            method: ControlMethod::Post,
            path,
            query: None,
            body: ClientBody::Rule(rule),
        }
    }

    /// Asks for the session rules.
    pub fn session_rules(&self) -> (result: ClientRequest)
        ensures
            result.body is Empty,
            route_of(result.method, result.path@, text_option(result.query))
                == RouteModel::SessionRules,
    {
        proof {
            reveal_strlit("/v1/status");
            reveal_strlit("/v1/approvals");
            reveal_strlit("/v1/session-rules");
        }
        ClientRequest {
            method: ControlMethod::Get,
            path: "/v1/session-rules".to_owned(),
            query: None,
            body: ClientBody::Empty,
        }
    }

    /// Sends a complete rule set.
    pub fn replace_session_rules(&self, rules: Vec<RuleDraft>) -> (result: ClientRequest)
        ensures
            result.body == ClientBody::Rules(rules),
            route_of(result.method, result.path@, text_option(result.query))
                == RouteModel::ReplaceSessionRules,
    {
        ClientRequest {
            method: ControlMethod::Put,
            path: "/v1/session-rules".to_owned(),
            query: None,
            body: ClientBody::Rules(rules),
        }
    }

    /// Asks to remove all session rules.
    pub fn clear_session_rules(&self) -> (result: ClientRequest)
        ensures
            result.body is Empty,
            route_of(result.method, result.path@, text_option(result.query))
                == RouteModel::ClearSessionRules,
    {
        ClientRequest {
            method: ControlMethod::Delete,
            path: "/v1/session-rules".to_owned(),
            query: None,
            body: ClientBody::Empty,
        }
    }
}

/// The socket that a client connects to.
pub fn socket_path(client: &ControlClient) -> (result: &str)
    ensures
        result@ == client@,
{
    client.socket_path.as_str()
}

/// Why a client got no answer.
#[derive(Debug, PartialEq, Eq)]
pub enum ControlClientError {
    Connect(String),
    Transport(String),
    Response { status: u16, message: String },
    InvalidResponse(String),
    BuildRequest(String),
}

/// The contents of a [`ControlClientError`].
pub enum ClientErrorModel {
    Connect(Seq<char>),
    Transport(Seq<char>),
    Response { status: u16, message: Seq<char> },
    InvalidResponse(Seq<char>),
    BuildRequest(Seq<char>),
}

impl View for ControlClientError {
    type V = ClientErrorModel;

    open spec fn view(&self) -> ClientErrorModel {
        match *self {
            ControlClientError::Connect(detail) => ClientErrorModel::Connect(detail@),
            ControlClientError::Transport(detail) => ClientErrorModel::Transport(detail@),
            ControlClientError::Response { status, message } => ClientErrorModel::Response {
                status,
                message: message@,
            },
            ControlClientError::InvalidResponse(detail) => ClientErrorModel::InvalidResponse(
                detail@,
            ),
            ControlClientError::BuildRequest(detail) => ClientErrorModel::BuildRequest(detail@),
        }
    }
}

/// A status with the words that belong to it.
pub uninterp spec fn worded_status(status: u16) -> Seq<char>;

/// Calls `hyper::StatusCode::from_u16` and writes the status as its `Display` does. It is refused
/// exactly below 100 and from 1000 on. What is written depends on the number alone and is named
/// here.
#[verifier::external_body]
fn write_status(status: u16) -> (result: Option<String>)
    ensures
        result is Some <==> 100 <= status < 1000,
        result matches Some(text) ==> text@ == worded_status(status),
{
    let code = hyper::StatusCode::from_u16(status).ok()?;
    Some(code.to_string())
}

/// A status as people read it.
pub open spec fn status_text(status: u16) -> Seq<char> {
    if 100 <= status < 1000 {
        worded_status(status)
    } else {
        decimal(status as nat)
    }
}

impl ClientErrorModel {
    /// The error as people read it.
    pub open spec fn message(self) -> Seq<char> {
        match self {
            ClientErrorModel::Connect(detail) => "could not connect to approval daemon: "@ + detail,
            ClientErrorModel::Transport(detail) => "control HTTP transport failed: "@ + detail,
            ClientErrorModel::Response { status, message } =>
                "control request failed with HTTP "@ + (status_text(status) + (": "@ + message)),
            ClientErrorModel::InvalidResponse(detail) => "invalid control response: "@ + detail,
            ClientErrorModel::BuildRequest(detail) => "could not build control request: "@ + detail,
        }
    }
}

impl ControlClientError {
    /// The error as people read it.
    pub fn message(&self) -> (result: String)
        ensures
            result@ == self@.message(),
    {
        match self {
            ControlClientError::Connect(detail) => with_detail(
                "could not connect to approval daemon: ",
                detail.as_str(),
            ),
            ControlClientError::Transport(detail) => with_detail(
                "control HTTP transport failed: ",
                detail.as_str(),
            ),
            ControlClientError::Response { status, message } => {
                let mut text = match write_status(*status) {
                    Some(text) => text,
                    None => decimal_text(*status as u64),
                };
                text.append(with_detail(": ", message.as_str()).as_str());
                with_detail("control request failed with HTTP ", text.as_str())
            },
            ControlClientError::InvalidResponse(detail) => with_detail(
                "invalid control response: ",
                detail.as_str(),
            ),
            ControlClientError::BuildRequest(detail) => with_detail(
                "could not build control request: ",
                detail.as_str(),
            ),
        }
    }
}

/// Whether a client takes an answer: a status from 200 to 299. Of any other answer the error is kept
/// that its body tells, or else the body itself.
pub fn check_response(status: u16, told: Option<String>, body: String) -> (result: Result<
    (),
    ControlClientError,
>)
    ensures
        if 200 <= status < 300 {
            result is Ok
        } else {
            result matches Err(error) && error@ == (ClientErrorModel::Response {
                status,
                message: match told {
                    Some(message) => message@,
                    None => body@,
                },
            })
        },
{
    if 200 <= status && status < 300 {
        return Ok(());
    }
    let message = match told {
        Some(message) => message,
        None => body,
    };
    Err(ControlClientError::Response { status, message })
}

// ---------------------------------------------------------------------------
// Laws
// ---------------------------------------------------------------------------

/// Every path that a client writes for a complete approval ID is routed to that approval, and to
/// the endpoint that the client meant.
pub proof fn requests_about_an_approval_are_routed(id: Seq<char>)
    requires
        is_approval_id(id),
    ensures
        forall|query: Option<Seq<char>>|
            #[trigger] route_of(ControlMethod::Get, approval_path(id, Seq::empty()), query) == (
            RouteModel::Show { approval_id: id, debug: query == Some("debug=true"@) }),
        forall|query: Option<Seq<char>>|
            #[trigger] route_of(ControlMethod::Post, approval_path(id, "/decision"@), query) == (
            RouteModel::Decide { approval_id: id }),
        forall|query: Option<Seq<char>>|
            #[trigger] route_of(ControlMethod::Post, approval_path(id, "/session-rule"@), query)
                == (RouteModel::Remember { approval_id: id }),
{
    reveal_strlit("/v1/status");
    reveal_strlit("/v1/approvals");
    reveal_strlit("/v1/session-rules");
    reveal_strlit("/v1/approvals/");
    reveal_strlit("/decision");
    reveal_strlit("/session-rule");
    reveal_strlit("appr_");
    let start = "/v1/approvals/"@;
    let plain = approval_path(id, Seq::empty());
    let decision = approval_path(id, "/decision"@);
    let rule = approval_path(id, "/session-rule"@);
    assert(plain.take(14) =~= start && plain.skip(14) =~= id);
    assert(decision.take(14) =~= start && decision.skip(14) =~= id + "/decision"@);
    assert(rule.take(14) =~= start && rule.skip(14) =~= id + "/session-rule"@);
    assert forall|i: int| 0 <= i < id.len() implies id[i] != '/' by {
        if i < 5 {
            assert(id.take(5)[i] == id[i]);
        }
    }
    assert((id + "/decision"@).skip(21) =~= "/decision"@);
    assert((id + "/decision"@).take(21) =~= id);
    assert((id + "/session-rule"@).skip(21) =~= "/session-rule"@);
    assert((id + "/session-rule"@).take(21) =~= id);
    let tail = (id + "/session-rule"@).skip(34 - 9);
    assert(tail[0] == (id + "/session-rule"@)[25]);
    assert(tail[0] != "/decision"@[0]);
}

/// A request that is not understood decides nothing: with an unknown path, with an ID that is not a
/// complete one, or with a body that could not be read, is too long or is not what the endpoint
/// takes, everything stays as it is.
pub proof fn refused_requests_change_nothing(
    context: ControlContext,
    broker: BrokerModel,
    route: RouteModel,
    body: ControlBody,
    now: Moment,
)
    requires
        match route {
            RouteModel::Decide { .. } => !(body.within(MAX_CONTROL_BODY_BYTES) is Decision),
            RouteModel::Remember { .. } => !(body.within(MAX_CONTROL_BODY_BYTES) is Rule),
            RouteModel::ReplaceSessionRules => !(body.within(MAX_SESSION_RULES_BODY_BYTES)
                is Rules),
            RouteModel::InvalidId | RouteModel::Unknown => true,
            _ => false,
        },
    ensures
        step(context, broker, route, body, now).0 == broker,
        match step(context, broker, route, body, now).1 {
            ReplyModel::Error(status, _) => status == 400 || status == 413,
            ReplyModel::Empty(status) => status == 404,
            _ => false,
        },
{
}

/// Whoever does not ask for debug data gets none of it.
pub proof fn debug_data_is_told_only_on_request(
    context: ControlContext,
    broker: BrokerModel,
    id: Seq<char>,
    body: ControlBody,
    now: Moment,
)
    ensures
        step(
            context,
            broker,
            (RouteModel::Show { approval_id: id, debug: false }),
            body,
            now,
        ).1 matches ReplyModel::Approval(ShowModel::Pending(detail)) ==> detail.debug is None
            && detail.content.debug_fields.len() == 0,
{
}

/// Nothing but a decision or a rule set changes more than what time has changed already: asking for
/// the status, the queue, an approval or the rules at most lets leases run out.
pub proof fn reading_decides_nothing(
    context: ControlContext,
    broker: BrokerModel,
    route: RouteModel,
    body: ControlBody,
    now: Moment,
)
    requires
        route is Status || route is List || route is Show || route is SessionRules,
    ensures
        ({
            let after = step(context, broker, route, body, now).0;
            after == broker || after == broker.refreshed(now)
        }),
{
}

/// A rule set that is refused leaves every rule as it was, and one that is taken is taken whole.
pub proof fn rule_sets_are_replaced_whole(broker: BrokerModel, drafts: Seq<DraftModel>)
    ensures
        ({
            let (after, reply) = replace_step(broker, drafts);
            match reply {
                ReplyModel::Installed(count) => count == drafts.len() && after.rules.len()
                    == drafts.len() && after == (BrokerModel { rules: after.rules, ..broker }),
                _ => after == broker,
            }
        }),
{
    if policy_of(drafts) is Ok {
        crate::policy::policies_are_valid_and_distinct(drafts);
    }
}

/// Whether a request grants an approval: a decision, once or to remember, that names it.
pub open spec fn grants(route: RouteModel, body: ControlBody, id: Seq<char>) -> bool {
    match (route, body.within(MAX_CONTROL_BODY_BYTES)) {
        (RouteModel::Decide { approval_id }, BodyModel::Decision(decision)) => approval_id == id
            && decision == DecisionModel::Granted,
        (RouteModel::Remember { approval_id }, BodyModel::Rule(rule)) => approval_id == id
            && rule.action == RuleAction::Allow,
        _ => false,
    }
}

/// Nobody who waits is granted anything but by a decision that names the approval: of the waits that
/// a control request ends, only that of the approval it grants ends well, and what was told before
/// stays told.
pub proof fn only_named_decisions_grant(
    context: ControlContext,
    broker: BrokerModel,
    route: RouteModel,
    body: ControlBody,
    now: Moment,
    i: int,
)
    requires
        broker.well_formed(),
        0 <= i < step(context, broker, route, body, now).0.completions.len(),
    ensures
        ({
            let after = step(context, broker, route, body, now).0.completions;
            if i < broker.completions.len() {
                after[i] == broker.completions[i]
            } else {
                after[i].decision == Some(DecisionModel::Granted) ==> grants(
                    route,
                    body,
                    after[i].approval_id,
                )
            }
        }),
{
    let over = |entry: PendingModel| entry.deadline <= now.monotonic;
    let gone = broker.pending.filter(over);
    let refreshed = broker.refreshed(now);
    let expired = gone.map_values(
        |entry: PendingModel|
            entry.completion(
                TerminalState::Expired,
                crate::broker::DecisionSource::Deadline,
                Some(DecisionModel::Denied { reason: crate::broker::EXPIRED_REASON@ }),
                now,
            ),
    );
    assert(refreshed.completions =~= broker.completions + expired);
    match route {
        RouteModel::Decide { approval_id } => {
            if let Some(k) = pending_position(refreshed.pending, approval_id) {
                lemma_named(refreshed.pending, approval_id);
            }
        },
        RouteModel::Remember { approval_id } => {
            if let Some(k) = pending_position(refreshed.pending, approval_id) {
                lemma_named(refreshed.pending, approval_id);
            }
        },
        _ => {},
    }
}

/// A pending request that is found by its identifier has that identifier.
proof fn lemma_named(pending: Seq<PendingModel>, id: Seq<char>)
    requires
        pending_position(pending, id) is Some,
    ensures
        0 <= pending_position(pending, id)->0 < pending.len(),
        pending[pending_position(pending, id)->0].approval_id == id,
    decreases pending.len(),
{
    if pending[0].approval_id != id {
        lemma_named(pending.drop_first(), id);
    }
}

// ---------------------------------------------------------------------------
// Laws of routes and answers
// ---------------------------------------------------------------------------

/// Each endpoint has one method and one path, and a decision goes to the approval that stands
/// whole in its path.
pub proof fn endpoints_have_one_address(
    method: ControlMethod,
    path: Seq<char>,
    query: Option<Seq<char>>,
)
    ensures
        ({
            let route = route_of(method, path, query);
            &&& route is Status <==> method is Get && path == "/v1/status"@
            &&& route is List <==> method is Get && path == "/v1/approvals"@
            &&& route is SessionRules <==> method is Get && path == "/v1/session-rules"@
            &&& route is ReplaceSessionRules <==> method is Put && path == "/v1/session-rules"@
            &&& route is ClearSessionRules <==> method is Delete && path == "/v1/session-rules"@
        }),
        route_of(method, path, query) matches RouteModel::Show { approval_id, debug } ==> method
            is Get && is_approval_id(approval_id) && path == "/v1/approvals/"@ + approval_id && (
        debug <==> query == Some("debug=true"@)),
        route_of(method, path, query) matches RouteModel::Decide { approval_id } ==> method is Post
            && is_approval_id(approval_id) && path == "/v1/approvals/"@ + approval_id
            + "/decision"@,
        route_of(method, path, query) matches RouteModel::Remember { approval_id } ==> method
            is Post && is_approval_id(approval_id) && path == "/v1/approvals/"@ + approval_id
            + "/session-rule"@,
{
    reveal_strlit("/v1/status");
    reveal_strlit("/v1/approvals");
    reveal_strlit("/v1/session-rules");
    reveal_strlit("/v1/approvals/");
    assert("/v1/status"@[4] == 's' && "/v1/status"@[5] == 't');
    assert("/v1/session-rules"@[5] == 'e' && "/v1/approvals"@[4] == 'a');
    let start = "/v1/approvals/"@;
    if begins_with(path, start) {
        let rest = path.skip(start.len() as int);
        assert(path.take(14)[4] == path[4]);
        crate::text::starts_and_ends_are_split_off(path, start, rest);
        crate::text::starts_and_ends_are_split_off(rest, "/decision"@, rest);
        crate::text::starts_and_ends_are_split_off(rest, "/session-rule"@, rest);
        let id = rest.take(rest.len() - "/decision"@.len());
        let other = rest.take(rest.len() - "/session-rule"@.len());
        assert(start + (id + "/decision"@) =~= start + id + "/decision"@);
        assert(start + (other + "/session-rule"@) =~= start + other + "/session-rule"@);
    }
}

/// A body is taken for what it was decoded to, exactly if it could be read and is within the limit.
pub proof fn bodies_are_taken_within_their_limit(body: ControlBody, limit: usize)
    ensures
        body.within(limit) is TooLarge <==> body.length is Some && body.length->0 > limit,
        body.within(limit) is Malformed <==> body.length is None || (body.length->0 <= limit
            && body.content is Malformed),
        body.within(limit) matches BodyModel::Decision(decision) ==> body.length is Some
            && body.length->0 <= limit && body.content is Decision && decision
            == body.content->Decision_0@,
        body.within(limit) matches BodyModel::Rule(rule) ==> body.length is Some && body.length->0
            <= limit && body.content is Rule && rule == body.content->Rule_0@,
        body.within(limit) matches BodyModel::Rules(rules) ==> body.length is Some && body.length->0
            <= limit && body.content is Rules && rules == draft_models(body.content->Rules_0@),
        MAX_CONTROL_BODY_BYTES == 8 * 1024,
        MAX_SESSION_RULES_BODY_BYTES == 1024 * 1024,
{
}

/// Leaving debug data out changes nothing else, and nothing at all for whoever asks for it.
pub proof fn only_debug_data_is_left_out(detail: ApprovalDetailModel)
    ensures
        told_of(detail, true) == detail,
        ({
            let told = told_of(detail, false);
            &&& told.debug is None
            &&& told.content.debug_fields.len() == 0
            &&& told.approval_id == detail.approval_id
            &&& told.received_at == detail.received_at
            &&& told.deadline == detail.deadline
            &&& told.content.capability_type == detail.content.capability_type
            &&& told.content.summary == detail.content.summary
            &&& told.content.source_kind == detail.content.source_kind
            &&& told.content.fields == detail.content.fields
        }),
{
}

/// An approval is shown as pending exactly while it is, and afterwards as completed while it is
/// remembered; it is its own in either case.
pub proof fn approvals_are_shown_as_they_stand(broker: BrokerModel, id: Seq<char>, debug: bool)
    ensures
        ({
            let told = shown_in(broker, id, debug);
            let pending = exists|i: int|
                0 <= i < broker.pending.len() && (#[trigger] broker.pending[i]).approval_id == id;
            let remembered = exists|i: int|
                0 <= i < broker.tombstones.len() && (#[trigger] broker.tombstones[i]).approval_id
                    == id;
            &&& pending <==> told is Approval && told->Approval_0 is Pending
            &&& !pending && remembered <==> told is Approval && told->Approval_0 is Completed
            &&& !pending && !remembered <==> told is Error
            &&& told is Error ==> told == ReplyModel::Error(404, "approval not found"@)
            &&& pending ==> told->Approval_0->Pending_0.approval_id == id
            &&& !pending && remembered ==> told->Approval_0->Completed_0.approval_id == id
        }),
        shown_in(broker, id, debug) matches ReplyModel::Approval(ShowModel::Completed(told))
            ==> exists|i: int|
            0 <= i < broker.tombstones.len() && (#[trigger] broker.tombstones[i]).approval_id == id
                && told.state == broker.tombstones[i].state && told.completed_at
                == crate::clock::timestamp_text(broker.tombstones[i].completed_at),
        shown_in(broker, id, debug) matches ReplyModel::Approval(ShowModel::Pending(told))
            ==> exists|i: int|
            0 <= i < broker.pending.len() && (#[trigger] broker.pending[i]).approval_id == id
                && told.received_at == crate::clock::timestamp_text(broker.pending[i].received_at)
                && told.deadline == crate::clock::timestamp_text(broker.pending[i].deadline_wall)
                && told.content.fields == broker.pending[i].detail.fields && told.content.summary
                == broker.pending[i].detail.summary,
{
    lemma_places(broker.pending, id);
    lemma_graves(broker.tombstones, id);
}

proof fn lemma_places(pending: Seq<PendingModel>, id: Seq<char>)
    ensures
        pending_position(pending, id) matches Some(i) ==> 0 <= i < pending.len()
            && pending[i].approval_id == id,
        pending_position(pending, id) is None ==> forall|i: int|
            0 <= i < pending.len() ==> (#[trigger] pending[i]).approval_id != id,
    decreases pending.len(),
{
    if pending.len() > 0 && pending[0].approval_id != id {
        let rest = pending.drop_first();
        lemma_places(rest, id);
        assert forall|i: int|
            pending_position(pending, id) is None && 0 <= i < pending.len() implies (
        #[trigger] pending[i]).approval_id != id by {
            if i > 0 {
                assert(rest[i - 1] == pending[i]);
            }
        }
    }
}

proof fn lemma_graves(tombstones: Seq<crate::broker::TombstoneModel>, id: Seq<char>)
    ensures
        tombstone_position(tombstones, id) matches Some(i) ==> 0 <= i < tombstones.len()
            && tombstones[i].approval_id == id,
        tombstone_position(tombstones, id) is None ==> forall|i: int|
            0 <= i < tombstones.len() ==> (#[trigger] tombstones[i]).approval_id != id,
    decreases tombstones.len(),
{
    if tombstones.len() > 0 && tombstones[0].approval_id != id {
        let rest = tombstones.drop_first();
        lemma_graves(rest, id);
        assert forall|i: int|
            tombstone_position(tombstones, id) is None && 0 <= i < tombstones.len() implies (
        #[trigger] tombstones[i]).approval_id != id by {
            if i > 0 {
                assert(rest[i - 1] == tombstones[i]);
            }
        }
    }
}

/// A decision that was made is answered with its state; one that was not, with the reason: 409 for
/// an approval that is over, 404 for one that is not known, 400 for anything else.
pub proof fn decisions_are_answered_by_their_outcome(
    id: Seq<char>,
    outcome: Result<TerminalState, BrokerErrorModel>,
)
    ensures
        ({
            let told = decision_reply(id, outcome);
            &&& outcome matches Ok(reached) ==> told == (ReplyModel::Decided {
                approval_id: id,
                state: reached,
            })
            &&& outcome is Err && outcome->Err_0 is NotPending ==> told == ReplyModel::Error(
                409,
                "approval is no longer pending"@,
            )
            &&& outcome is Err && outcome->Err_0 is NotFound ==> told == ReplyModel::Error(
                404,
                "approval not found"@,
            )
            &&& outcome is Err && (outcome->Err_0 is EmptyDenialReason || outcome->Err_0
                is DenialReasonTooLarge) ==> told == ReplyModel::Error(
                400,
                "invalid denial reason"@,
            )
            &&& outcome is Err && outcome->Err_0 is Policy ==> told == ReplyModel::Error(
                400,
                (outcome->Err_0->Policy_0).message(),
            )
            &&& outcome is Err && !(outcome->Err_0 is NotPending) && !(outcome->Err_0 is NotFound)
                ==> told is Error && told->Error_0 == 400
        }),
{
}

/// A decision is answered as made exactly if its reason is valid and the approval still waits; the
/// answer says `Granted` exactly if the decision grants and `Denied` exactly if it denies, and so
/// does what the approval's sender is told.
pub proof fn answers_tell_the_decision(
    broker: BrokerModel,
    id: Seq<char>,
    decision: DecisionModel,
    now: Moment,
)
    requires
        broker.refreshed(now).well_formed(),
    ensures
        ({
            let (after, told) = decision_step(broker, id, decision, now);
            let refreshed = broker.refreshed(now);
            let waits = exists|i: int|
                0 <= i < refreshed.pending.len() && (#[trigger] refreshed.pending[i]).approval_id
                    == id;
            &&& told is Decided <==> decision_error(decision) is None && waits
            &&& decision_error(decision) is Some ==> after == broker
            &&& decision_error(decision) is None && !waits ==> after == refreshed
            &&& told is Decided ==> {
                &&& told->Decided_approval_id == id
                &&& told->Decided_state is Granted <==> decision is Granted
                &&& told->Decided_state is Denied <==> decision is Denied
                &&& after.completions.last().approval_id == id
                &&& after.completions.last().decision == Some(decision)
                &&& after.completions.last().state == told->Decided_state
            }
        }),
{
    crate::broker::states_tell_the_decision(broker.refreshed(now), id, decision, now);
}

/// A decision that is remembered is answered with `Granted` exactly if the rule allows and `Denied`
/// exactly if it denies. A reason for allowing is refused.
pub proof fn answers_tell_the_remembered_action(
    broker: BrokerModel,
    id: Seq<char>,
    rule: SessionRuleModel,
    now: Moment,
)
    requires
        broker.refreshed(now).well_formed(),
    ensures
        ({
            let (after, told) = remember_step(broker, id, rule, now);
            &&& rule.action is Allow && rule.reason is Some ==> after == broker && told
                == ReplyModel::Error(400, "invalid session rule body"@)
            &&& told is Decided ==> {
                &&& told->Decided_approval_id == id
                &&& told->Decided_state is Granted <==> rule.action is Allow
                &&& told->Decided_state is Denied <==> rule.action is Deny
                &&& after.completions.last().approval_id == id
                &&& after.completions.last().state == told->Decided_state
            }
            &&& !(told is Decided) ==> after.rules == broker.rules
        }),
{
    let refreshed = broker.refreshed(now);
    if refreshed.remembered(id, rule.action, rule.scope, rule.path, rule.reason, now) is Ok {
        crate::broker::remembered_states_tell_the_action(
            refreshed,
            id,
            rule.action,
            rule.scope,
            rule.path,
            rule.reason,
            now,
        );
    }
}

/// A rule set is installed rule by rule, in order, each as its draft says; at most 128 are taken.
pub proof fn rule_sets_are_installed_in_order(broker: BrokerModel, drafts: Seq<DraftModel>, i: int)
    requires
        0 <= i < drafts.len(),
    ensures
        drafts.len() > 128 ==> replace_step(broker, drafts) == (
            broker,
            ReplyModel::Error(400, PolicyErrorModel::Capacity.message()),
        ),
        replace_step(broker, drafts).1 is Installed ==> replace_step(broker, drafts).0.rules[i]
            == drafts[i].compiled() && replace_step(broker, drafts).0.rules[i].action
            == drafts[i].action && replace_step(broker, drafts).0.rules[i].access
            == drafts[i].access && replace_step(broker, drafts).0.rules[i].scope
            == drafts[i].scope,
        drafts.len() <= 128 && policy_of(drafts) is Ok ==> replace_step(broker, drafts).1
            == ReplyModel::Installed(drafts.len() as int),
{
    crate::policy::policies_are_valid_and_distinct(drafts);
    if policy_of(drafts) is Ok {
        crate::policy::compiling_is_idempotent(drafts[i]);
        assert((policy_of(drafts)->Ok_0)[i] == drafts[i].normalized());
    }
}

/// What the daemon tells about itself is what holds at that moment, and its limits and addresses
/// are those it was started with.
pub proof fn the_status_is_that_of_the_moment(
    context: ControlContext,
    broker: BrokerModel,
    now: Moment,
)
    ensures
        ({
            let told = status_of(context, broker, now);
            &&& told.version == crate::VERSION@
            &&& told.pending == broker.pending.len()
            &&& told.session_rule_count == broker.rules.len()
            &&& told.max_pending == context.max_pending
            &&& told.max_per_session == context.max_per_session
            &&& told.webhook_listen == context.webhook_listen@
            &&& told.debug_capture == context.debug_capture@
            &&& context.started_at <= now.monotonic && now.monotonic - context.started_at
                < u64::MAX as int * 1000000000 ==> told.uptime_seconds * 1000000000
                <= now.monotonic - context.started_at < (told.uptime_seconds + 1) * 1000000000
            &&& context.started_at > now.monotonic ==> told.uptime_seconds == 0
        }),
{
}

/// Each endpoint answers with what it is for: the queue line by line, the rules one by one, or how
/// many rules there were, once they are gone.
pub proof fn endpoints_answer_what_they_are_for(
    context: ControlContext,
    broker: BrokerModel,
    body: ControlBody,
    now: Moment,
)
    ensures
        step(context, broker, RouteModel::Status, body, now).1 == ReplyModel::Status(
            status_of(context, broker.refreshed(now), now),
        ),
        ({
            let told = step(context, broker, RouteModel::List, body, now).1;
            let queue = broker.refreshed(now).pending;
            &&& told is List
            &&& told->List_0.len() == queue.len()
            &&& forall|i: int|
                0 <= i < queue.len() ==> (#[trigger] told->List_0[i]).approval_id
                    == queue[i].approval_id && told->List_0[i].summary == queue[i].detail.summary
                    && told->List_0[i].received_at == crate::clock::timestamp_text(
                    queue[i].received_at,
                ) && told->List_0[i].deadline == crate::clock::timestamp_text(
                    queue[i].deadline_wall,
                )
        }),
        ({
            let told = step(context, broker, RouteModel::SessionRules, body, now).1;
            &&& told is Rules
            &&& told->Rules_0.len() == broker.rules.len()
            &&& forall|i: int|
                0 <= i < broker.rules.len() ==> (#[trigger] told->Rules_0[i]).path
                    == broker.rules[i].path && told->Rules_0[i].action == broker.rules[i].action
                    && told->Rules_0[i].scope == broker.rules[i].scope && told->Rules_0[i].access
                    == broker.rules[i].access
        }),
        ({
            let (after, told) = step(context, broker, RouteModel::ClearSessionRules, body, now);
            &&& told == ReplyModel::Cleared(broker.rules.len() as int)
            &&& after.rules.len() == 0
            &&& after.pending == broker.pending
            &&& after.completions == broker.completions
            &&& after.replay == broker.replay
            &&& after.tombstones == broker.tombstones
        }),
{
}

/// Requests that decide reach the approval in their route with the decision in their body.
pub proof fn decisions_reach_the_approval_in_their_route(
    context: ControlContext,
    broker: BrokerModel,
    id: Seq<char>,
    body: ControlBody,
    now: Moment,
)
    ensures
        body.within(8192) matches BodyModel::Decision(decision) ==> step(
            context,
            broker,
            (RouteModel::Decide { approval_id: id }),
            body,
            now,
        ) == decision_step(broker, id, decision, now),
        body.within(8192) matches BodyModel::Rule(rule) ==> step(
            context,
            broker,
            (RouteModel::Remember { approval_id: id }),
            body,
            now,
        ) == remember_step(broker, id, rule, now),
        body.within(1048576) matches BodyModel::Rules(drafts) ==> step(
            context,
            broker,
            RouteModel::ReplaceSessionRules,
            body,
            now,
        ) == replace_step(broker, drafts),
{
}

/// Answers carry their own status, and 200 where they tell something.
pub proof fn answers_that_tell_something_succeed(reply: ControlReply)
    ensures
        reply matches ControlReply::Empty(status) ==> reply.status_code() == status,
        reply matches ControlReply::Error(status, _) ==> reply.status_code() == status,
        !(reply is Empty) && !(reply is Error) ==> reply.status_code() == 200,
{
}

/// What is sent is seen as what its fields hold.
pub proof fn messages_are_seen_field_by_field(
    status: DaemonStatus,
    decision: DecisionRequest,
    rule: SessionRuleRequest,
    detail: ApprovalDetail,
    completed: CompletedApproval,
    reply: ControlReply,
)
    ensures
        status@.version == status.version@,
        status@.uptime_seconds == status.uptime_seconds,
        status@.pending == status.pending,
        status@.max_pending == status.max_pending,
        status@.max_per_session == status.max_per_session,
        status@.webhook_listen == status.webhook_listen@,
        status@.debug_capture == status.debug_capture@,
        status@.session_rule_count == status.session_rule_count,
        decision is Granted <==> decision@ is Granted,
        decision matches DecisionRequest::Denied { reason } ==> decision@ == (
        DecisionModel::Denied { reason: reason@ }),
        rule@.action == rule.action,
        rule@.scope == rule.scope,
        rule@.reason == text_option(rule.reason),
        rule@.path == text_option(rule.path),
        ApprovalView::Pending(detail)@ == ShowModel::Pending(detail@),
        ApprovalView::Completed(completed)@ == ShowModel::Completed(completed@),
        reply matches ControlReply::Decided(response) ==> reply@ == (ReplyModel::Decided {
            approval_id: response.approval_id@,
            state: response.state,
        }),
        reply matches ControlReply::Error(code, error) ==> reply@ == ReplyModel::Error(
            code,
            error@,
        ),
        reply matches ControlReply::Empty(code) ==> reply@ == ReplyModel::Empty(code),
        reply matches ControlReply::Installed(count) ==> reply@ == ReplyModel::Installed(
            count as int,
        ),
        reply matches ControlReply::Cleared(count) ==> reply@ == ReplyModel::Cleared(count as int),
        reply matches ControlReply::Approval(view) ==> reply@ == ReplyModel::Approval(view@),
        reply matches ControlReply::Status(told) ==> reply@ == ReplyModel::Status(told@),
        reply matches ControlReply::List(list) ==> reply@ == ReplyModel::List(
            summary_models(list.approvals@),
        ),
        reply matches ControlReply::Rules(rules) ==> reply@ == ReplyModel::Rules(
            draft_models(rules@),
        ),
{
}

/// What went wrong with a client's request is said in its own words, with the status of the answer
/// where there was one.
pub proof fn client_errors_say_what_went_wrong(detail: Seq<char>, status: u16)
    ensures
        ClientErrorModel::Connect(detail).message() == "could not connect to approval daemon: "@
            + detail,
        ClientErrorModel::Transport(detail).message() == "control HTTP transport failed: "@
            + detail,
        ClientErrorModel::InvalidResponse(detail).message() == "invalid control response: "@
            + detail,
        ClientErrorModel::BuildRequest(detail).message() == "could not build control request: "@
            + detail,
        (ClientErrorModel::Response { status, message: detail }).message()
            == "control request failed with HTTP "@ + (status_text(status) + (": "@ + detail)),
        !(100 <= status < 1000) ==> status_text(status) == decimal(status as nat),
        100 <= status < 1000 ==> status_text(status) == worded_status(status),
{
}

/// A client's request goes to the endpoint that it is meant for, and a decision or a rule goes
/// along as it is.
pub proof fn clients_address_their_endpoint(
    client: &ControlClient,
    id: &ApprovalId,
    decision: &DecisionRequest,
    rule: SessionRuleRequest,
    decided: ClientRequest,
    remembered: ClientRequest,
)
    requires
        call_ensures(ControlClient::decide, (client, id, decision), decided),
        call_ensures(ControlClient::remember, (client, id, rule), remembered),
    ensures
        decided.method is Post,
        decided.path@ == "/v1/approvals/"@ + id@ + "/decision"@,
        decided.body is Decision && (decided.body->Decision_0)@ == decision@,
        remembered.method is Post,
        remembered.path@ == "/v1/approvals/"@ + id@ + "/session-rule"@,
        remembered.body is Rule && remembered.body->Rule_0 == rule,
{
    endpoints_have_one_address(decided.method, decided.path@, text_option(decided.query));
    endpoints_have_one_address(remembered.method, remembered.path@, text_option(remembered.query));
}

/// Reading requests of a client go to their endpoint.
pub proof fn clients_read_by_get(
    client: &ControlClient,
    id: &ApprovalId,
    debug: bool,
    status: ClientRequest,
    list: ClientRequest,
    show: ClientRequest,
    rules: ClientRequest,
)
    requires
        call_ensures(ControlClient::status, (client,), status),
        call_ensures(ControlClient::list, (client,), list),
        call_ensures(ControlClient::show, (client, id, debug), show),
        call_ensures(ControlClient::session_rules, (client,), rules),
    ensures
        status.method is Get && status.path@ == "/v1/status"@,
        list.method is Get && list.path@ == "/v1/approvals"@,
        show.method is Get && show.path@ == "/v1/approvals/"@ + id@,
        debug <==> text_option(show.query) == Some("debug=true"@),
        rules.method is Get && rules.path@ == "/v1/session-rules"@,
{
    endpoints_have_one_address(status.method, status.path@, text_option(status.query));
    endpoints_have_one_address(list.method, list.path@, text_option(list.query));
    endpoints_have_one_address(show.method, show.path@, text_option(show.query));
    endpoints_have_one_address(rules.method, rules.path@, text_option(rules.query));
}

/// An answer counts exactly if its status is one of success; of any other the client keeps the
/// status and what was told, or else the body.
pub proof fn only_success_counts(
    status: u16,
    told: Option<String>,
    body: String,
    result: Result<(), ControlClientError>,
)
    requires
        call_ensures(check_response, (status, told, body), result),
    ensures
        result is Ok <==> 200 <= status <= 299,
        result is Err ==> (result->Err_0)@ == (ClientErrorModel::Response {
            status,
            message: if told is Some {
                (told->0)@
            } else {
                body@
            },
        }),
{
}

/// Asking for an approval shows that approval, after leases have run out, with debug data exactly as
/// asked for.
pub proof fn asking_for_an_approval_shows_it(
    context: ControlContext,
    broker: BrokerModel,
    id: Seq<char>,
    debug: bool,
    body: ControlBody,
    now: Moment,
)
    ensures
        ({
            let (after, told) = step(
                context,
                broker,
                (RouteModel::Show { approval_id: id, debug }),
                body,
                now,
            );
            &&& after == broker.refreshed(now)
            &&& told == shown_in(broker.refreshed(now), id, debug)
        }),
{
}

} // verus!
