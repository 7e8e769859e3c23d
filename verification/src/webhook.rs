//! The webhook: which requests are taken in, and what is answered.
use vstd::prelude::*;

use crate::broker::{
    is_approval_id, Broker, BrokerError, BrokerErrorModel, BrokerModel, IngressOutcome, Submission,
    SHUTDOWN_REASON,
};
use crate::clock::{timestamp, timestamp_text, Moment};
use crate::debug_capture::{received_record, CaptureRecord, DebugCapture, RecordModel};
use crate::policy::deciding_rule;
use crate::protocol::{
    parse_webhook_body, parsed_body, DecisionModel, Envelope, IncomingApproval, IncomingModel,
    ProtocolError, ProtocolErrorModel, WebhookDecision,
};
use crate::text::{chars, same};

verus! {

/// The path of the webhook.
pub const WEBHOOK_PATH: &'static str = "/v1/webhooks/approval";

/// The limits of the webhook.
#[derive(Clone, Copy, Debug, PartialEq, Eq, Structural)]
pub struct WebhookContext {
    pub max_body_bytes: usize,
    pub max_detail_bytes: usize,
}

/// What a request says before its body.
#[derive(Debug)]
pub struct WebhookHead {
    pub is_post: bool,
    pub path: String,
    pub content_type: Option<String>,
}

/// Why a body could not be read.
#[derive(Clone, Copy, Debug, PartialEq, Eq, Structural)]
pub enum ReadBodyError {
    TooLarge,
    Transport,
}

/// A body, and what the JSON decoder made of it.
pub struct WebhookBody {
    pub bytes: Vec<u8>,
    pub envelope: Result<Envelope, String>,
}

/// A refusal: the status, the category for the log, and the error in the body, if there is a body.
#[derive(Clone, Copy, Debug)]
pub struct Rejection {
    pub status: u16,
    pub category: &'static str,
    pub error: Option<&'static str>,
}

/// The contents of a [`Rejection`].
pub struct RejectionModel {
    pub status: u16,
    pub category: Seq<char>,
    pub error: Option<Seq<char>>,
}

impl View for Rejection {
    type V = RejectionModel;

    open spec fn view(&self) -> RejectionModel {
        RejectionModel {
            status: self.status,
            category: self.category@,
            error: match self.error {
                Some(error) => Some(error@),
                None => None,
            },
        }
    }
}

/// A refusal with a body.
pub open spec fn error_rejection(status: u16, category: Seq<char>, error: Seq<char>) -> RejectionModel {
    RejectionModel { status, category, error: Some(error) }
}

/// Writes a refusal with a body.
fn error_response(status: u16, category: &'static str, error: &'static str) -> (result: Rejection)
    ensures
        result@ == error_rejection(status, category@, error@),
{
    Rejection { status, category, error: Some(error) }
}

/// Writes a refusal without a body.
fn empty_response(status: u16, category: &'static str) -> (result: Rejection)
    ensures
        result@ == (RejectionModel { status, category: category@, error: None }),
{
    Rejection { status, category, error: None }
}

// ---------------------------------------------------------------------------
// The head
// ---------------------------------------------------------------------------

/// The lowercase form of an ASCII letter; other characters are their own.
pub open spec fn lower(c: char) -> char {
    if 'A' <= c <= 'Z' {
        (c as u32 + 32) as char
    } else {
        c
    }
}

/// Whether two texts are equal but for the case of ASCII letters.
pub open spec fn same_but_for_case(a: Seq<char>, b: Seq<char>) -> bool {
    a.len() == b.len() && forall|i: int|
        0 <= i < a.len() ==> lower(#[trigger] a[i]) == lower(b[i])
}

/// The lowercase form of an ASCII letter.
fn lower_char(c: char) -> (result: char)
    ensures
        result == lower(c),
{
    if 'A' <= c && c <= 'Z' {
        (c as u8 + 32) as char
    } else {
        c
    }
}

/// Compares two texts but for the case of ASCII letters.
fn equal_but_for_case(a: &str, b: &str) -> (result: bool)
    ensures
        result == same_but_for_case(a@, b@),
{
    let left = chars(a);
    let right = chars(b);
    if left.len() != right.len() {
        return false;
    }
    for i in 0..left.len()
        invariant
            left@ == a@,
            right@ == b@,
            left@.len() == right@.len(),
            forall|j: int| 0 <= j < i ==> lower(#[trigger] a@[j]) == lower(b@[j]),
    {
        if lower_char(left[i]) != lower_char(right[i]) {
            assert(lower(a@[i as int]) != lower(b@[i as int]));
            return false;
        }
    }
    true
}

/// Whether the content type is exactly that of JSON, without parameters.
pub open spec fn is_json(content_type: Option<String>) -> bool {
    content_type matches Some(value) && same_but_for_case(value@, "application/json"@)
}

/// Whether the content type is exactly that of JSON.
fn has_json_content_type(content_type: &Option<String>) -> (result: bool)
    ensures
        result == is_json(*content_type),
{
    match content_type {
        Some(value) => equal_but_for_case(value.as_str(), "application/json"),
        None => false,
    }
}

/// Why a request is refused before its body is read, if it is.
pub open spec fn head_rejection(head: WebhookHead) -> Option<RejectionModel> {
    if !head.is_post {
        Some(RejectionModel { status: 405, category: "method_not_allowed"@, error: None })
    } else if head.path@ != WEBHOOK_PATH@ {
        Some(RejectionModel { status: 404, category: "unknown_path"@, error: None })
    } else if !is_json(head.content_type) {
        Some(
            error_rejection(
                415,
                "unsupported_media_type"@,
                "content-type must be application/json"@,
            ),
        )
    } else {
        None
    }
}

/// Checks a request before its body is read.
pub fn check_head(head: &WebhookHead) -> (result: Result<(), Rejection>)
    ensures
        match head_rejection(*head) {
            Some(refusal) => result matches Err(rejection) && rejection@ == refusal,
            None => result is Ok,
        },
{
    if !head.is_post {
        return Err(empty_response(405, "method_not_allowed"));
    }
    if !same(head.path.as_str(), WEBHOOK_PATH) {
        return Err(empty_response(404, "unknown_path"));
    }
    if !has_json_content_type(&head.content_type) {
        return Err(
            error_response(
                415,
                "unsupported_media_type",
                "content-type must be application/json",
            ),
        );
    }
    Ok(())
}

// ---------------------------------------------------------------------------
// The body
// ---------------------------------------------------------------------------

/// Takes one more piece of a body, unless the body would then exceed its limit.
pub fn read_limited(bytes: &mut Vec<u8>, data: &[u8], limit: usize) -> (result: Result<
    (),
    ReadBodyError,
>)
    ensures
        if old(bytes)@.len() + data@.len() > limit {
            final(bytes)@ == old(bytes)@ && result == Err::<(), ReadBodyError>(
                ReadBodyError::TooLarge,
            )
        } else {
            final(bytes)@ == old(bytes)@ + data@ && result is Ok
        },
        result is Ok <==> old(bytes)@.len() + data@.len() <= limit,
        final(bytes)@.len() <= limit || final(bytes)@ == old(bytes)@,
{
    if data.len() > limit || bytes.len() > limit - data.len() {
        return Err(ReadBodyError::TooLarge);
    }
    bytes.extend_from_slice(data);
    assert(bytes@ =~= old(bytes)@ + data@);
    Ok(())
}

/// Pieces one after another.
pub open spec fn joined(pieces: Seq<Seq<u8>>) -> Seq<u8>
    decreases pieces.len(),
{
    if pieces.len() == 0 {
        Seq::empty()
    } else {
        joined(pieces.drop_last()) + pieces.last()
    }
}

/// What reading a body piece by piece gives, where [`read_limited`] takes each piece.
pub open spec fn read_pieces(pieces: Seq<Seq<u8>>, limit: usize) -> Option<Seq<u8>>
    decreases pieces.len(),
{
    if pieces.len() == 0 {
        Some(Seq::empty())
    } else {
        match read_pieces(pieces.drop_last(), limit) {
            Some(bytes) => if bytes.len() + pieces.last().len() > limit {
                None
            } else {
                Some(bytes + pieces.last())
            },
            None => None,
        }
    }
}

/// However a body is cut into pieces, it is read whole if it is within the limit, and not at all if
/// it is not.
pub proof fn bodies_are_read_whole_or_not_at_all(pieces: Seq<Seq<u8>>, limit: usize)
    ensures
        read_pieces(pieces, limit) == (if joined(pieces).len() <= limit {
            Some(joined(pieces))
        } else {
            None
        }),
    decreases pieces.len(),
{
    if pieces.len() > 0 {
        bodies_are_read_whole_or_not_at_all(pieces.drop_last(), limit);
    }
}

/// What is answered to a body that is refused.
pub open spec fn body_rejection(error: ProtocolErrorModel) -> RejectionModel {
    match error {
        ProtocolErrorModel::BodyTooLarge { .. } => error_rejection(
            413,
            "body_too_large"@,
            "request body is too large"@,
        ),
        ProtocolErrorModel::DetailTooLarge { .. } => error_rejection(
            422,
            "detail_too_large"@,
            "approval detail is too large"@,
        ),
        _ => error_rejection(400, "invalid_request"@, "invalid webhook request"@),
    }
}

/// What is answered to a request that the broker refuses.
pub open spec fn broker_rejection(error: BrokerErrorModel) -> RejectionModel {
    match error {
        BrokerErrorModel::DuplicateRequest => error_rejection(
            409,
            "duplicate_request"@,
            "duplicate approval request"@,
        ),
        BrokerErrorModel::PerSessionCapacity => error_rejection(
            429,
            "per_session_capacity"@,
            "per-session pending limit reached"@,
        ),
        BrokerErrorModel::GlobalCapacity => error_rejection(
            503,
            "global_capacity"@,
            "global pending limit reached"@,
        ),
        _ => error_rejection(
            500,
            "broker_registration"@,
            "could not register approval request"@,
        ),
    }
}

/// What a request comes to before the broker sees it: an approval request, or a refusal.
pub open spec fn received(
    context: WebhookContext,
    head: WebhookHead,
    body: Result<WebhookBody, ReadBodyError>,
) -> Result<IncomingModel, RejectionModel> {
    match head_rejection(head) {
        Some(refusal) => Err(refusal),
        None => match body {
            Err(ReadBodyError::TooLarge) => Err(
                error_rejection(413, "body_too_large"@, "request body is too large"@),
            ),
            Err(ReadBodyError::Transport) => Err(
                error_rejection(400, "body_transport"@, "invalid webhook request"@),
            ),
            Ok(body) => match parsed_body(
                body.bytes@.len(),
                context.max_body_bytes,
                context.max_detail_bytes,
                body.envelope,
            ) {
                Ok(incoming) => Ok(incoming),
                Err(error) => Err(body_rejection(error)),
            },
        },
    }
}

/// Checks a request up to where the broker takes over.
pub fn receive(
    context: WebhookContext,
    head: &WebhookHead,
    body: Result<WebhookBody, ReadBodyError>,
) -> (result: Result<IncomingApproval, Rejection>)
    ensures
        match received(context, *head, body) {
            Ok(expected) => result matches Ok(incoming) && incoming@ == expected,
            Err(refusal) => result matches Err(rejection) && rejection@ == refusal,
        },
{
    if let Err(rejection) = check_head(head) {
        return Err(rejection);
    }
    let body = match body {
        Ok(body) => body,
        Err(ReadBodyError::TooLarge) => return Err(
            error_response(413, "body_too_large", "request body is too large"),
        ),
        Err(ReadBodyError::Transport) => return Err(
            error_response(400, "body_transport", "invalid webhook request"),
        ),
    };
    match parse_webhook_body(
        body.bytes.as_slice(),
        context.max_body_bytes,
        context.max_detail_bytes,
        body.envelope,
    ) {
        Ok(incoming) => Ok(incoming),
        Err(ProtocolError::BodyTooLarge { .. }) => Err(
            error_response(413, "body_too_large", "request body is too large"),
        ),
        Err(ProtocolError::DetailTooLarge { .. }) => Err(
            error_response(422, "detail_too_large", "approval detail is too large"),
        ),
        Err(_) => Err(error_response(400, "invalid_request", "invalid webhook request")),
    }
}

/// Writes what is answered to a request that the broker refuses.
fn refuse(error: &BrokerError) -> (result: Rejection)
    ensures
        result@ == broker_rejection(error@),
{
    match error {
        BrokerError::DuplicateRequest => error_response(
            409,
            "duplicate_request",
            "duplicate approval request",
        ),
        BrokerError::PerSessionCapacity => error_response(
            429,
            "per_session_capacity",
            "per-session pending limit reached",
        ),
        BrokerError::GlobalCapacity => error_response(
            503,
            "global_capacity",
            "global pending limit reached",
        ),
        _ => error_response(500, "broker_registration", "could not register approval request"),
    }
}

// ---------------------------------------------------------------------------
// The whole request
// ---------------------------------------------------------------------------

/// What a request comes to: a refusal, an answer, or a wait for one. Answers come with status 200.
/// The record is what debug capture has to write.
#[derive(Debug)]
pub enum WebhookOutcome {
    Rejected(Rejection),
    Answered { decision: WebhookDecision, record: Option<CaptureRecord> },
    Waiting { submission: Submission, record: Option<CaptureRecord> },
}

/// Whether records are written.
pub open spec fn captures(capture: Option<&DebugCapture>) -> bool {
    capture matches Some(running) && running@.failure is None
}

/// What a record that has to be written holds, if one has to be.
pub open spec fn is_record(
    record: Option<CaptureRecord>,
    capture: Option<&DebugCapture>,
    expected: RecordModel,
) -> bool {
    match record {
        Some(written) => captures(capture) && written@ == expected,
        None => !captures(capture),
    }
}

/// What becomes of an approval request that passed every check, given a broker that has been
/// pruned: a refusal by the broker, a decision that a shutdown or a rule made, or a registration.
pub open spec fn taken_in(
    incoming: IncomingModel,
    capture: Option<&DebugCapture>,
    before: BrokerModel,
    now: Moment,
    result: WebhookOutcome,
    after: BrokerModel,
) -> bool {
    let request = incoming.request;
    if before.stopped {
        &&& after == before
        &&& result matches WebhookOutcome::Answered { decision, record: None } && decision@
            == (DecisionModel::Denied { reason: SHUTDOWN_REASON@ })
    } else {
        match deciding_rule(before.rules, request) {
            Some(rule) => if before.knows_key(request.session_id(), request.request_id()) {
                &&& after == before
                &&& result matches WebhookOutcome::Rejected(rejection) && rejection@
                    == broker_rejection(BrokerErrorModel::DuplicateRequest)
            } else {
                &&& after == before.reserved(request, now)
                &&& result matches WebhookOutcome::Answered { decision, record }
                    && decision@ == rule.decision() && is_record(
                    record,
                    capture,
                    (RecordModel::PolicyDecision {
                        claimed_backend: incoming.claimed_backend,
                        source_kind: request.source_kind(),
                        wire_request: request,
                        rule: rule.draft(),
                        decision: rule.decision(),
                    }),
                )
            },
            None => match before.admission_error(request) {
                Some(refusal) => {
                    &&& after == before
                    &&& result matches WebhookOutcome::Rejected(rejection) && rejection@
                        == broker_rejection(refusal)
                },
                None => match result {
                    WebhookOutcome::Waiting { submission, record } => {
                        &&& is_approval_id(submission.approval_id@)
                        &&& !before.knows_id(submission.approval_id@)
                        &&& submission.deadline == now.monotonic
                            + before.config.request_timeout
                        &&& after == before.registered(
                            submission.approval_id@,
                            incoming,
                            now,
                        )
                        &&& is_record(
                            record,
                            capture,
                            received_record(
                                submission.approval_id@,
                                incoming,
                                timestamp_text(
                                    (now.wall + before.config.request_timeout) as u128,
                                ),
                            ),
                        )
                    },
                    WebhookOutcome::Rejected(rejection) => {
                        &&& after == before
                        &&& rejection@.status == 500
                        &&& rejection@.category == "broker_registration"@
                        &&& rejection@.error == Some("could not register approval request"@)
                    },
                    WebhookOutcome::Answered { .. } => false,
                },
            },
        }
    }
}

/// A request that the broker refuses leaves no trace: nothing becomes pending, reserved, remembered
/// or told on its account.
pub proof fn refused_requests_leave_no_trace(
    incoming: IncomingModel,
    capture: Option<&DebugCapture>,
    before: BrokerModel,
    now: Moment,
    result: WebhookOutcome,
    after: BrokerModel,
)
    requires
        taken_in(incoming, capture, before, now, result, after),
        result is Rejected,
    ensures
        after == before,
{
}

/// A request is granted at once only by an allowing rule, the one that decides it; the queue and
/// everything that was told stay as they are.
pub proof fn only_allowing_rules_grant_at_once(
    incoming: IncomingModel,
    capture: Option<&DebugCapture>,
    before: BrokerModel,
    now: Moment,
    result: WebhookOutcome,
    after: BrokerModel,
)
    requires
        taken_in(incoming, capture, before, now, result, after),
        result is Answered,
        result->Answered_decision@ == DecisionModel::Granted,
    ensures
        !before.stopped,
        deciding_rule(before.rules, incoming.request) matches Some(rule) && rule.action
            == crate::policy::RuleAction::Allow,
        after.pending == before.pending,
        after.tombstones == before.tombstones,
        after.completions == before.completions,
{
}

/// Takes in an approval request that passed every check: a refusal by the broker, a decision that a
/// shutdown or a rule made, or a registration.
pub fn submit(
    incoming: IncomingApproval,
    capture: Option<&DebugCapture>,
    broker: &mut Broker,
    now: Moment,
) -> (result: WebhookOutcome)
    requires
        old(broker)@.well_formed(),
        old(broker)@.config.reaches(now),
    ensures
        final(broker)@.well_formed(),
        taken_in(incoming@, capture, old(broker)@.pruned(now), now, result, final(broker)@),
{
    let rule = broker.matching_rule(&incoming.request);
    let kept = match capture {
        Some(_) => Some(incoming.clone()),
        None => None,
    };
    let timeout: u128 = broker.config().request_timeout;
    match broker.ingress(incoming, now) {
        Err(error) => WebhookOutcome::Rejected(refuse(&error)),
        Ok(IngressOutcome::Automatic(decision)) => {
            let record = match (capture, kept, rule) {
                (Some(running), Some(incoming), Some(rule)) => running.record_policy_decision(
                    &incoming,
                    &rule,
                    &decision,
                ),
                _ => None,
            };
            WebhookOutcome::Answered { decision, record }
        },
        Ok(IngressOutcome::Pending(submission)) => {
            let record = match (capture, kept) {
                (Some(running), Some(incoming)) => {
                    let deadline = timestamp(now.wall + timeout);
                    running.record_received(&submission.approval_id, &incoming, deadline.as_str())
                },
                _ => None,
            };
            WebhookOutcome::Waiting { submission, record }
        },
    }
}

/// Handles one request of the webhook. A refused request reaches neither the broker nor the
/// capture.
pub fn handle(
    context: WebhookContext,
    head: &WebhookHead,
    body: Result<WebhookBody, ReadBodyError>,
    capture: Option<&DebugCapture>,
    broker: &mut Broker,
    now: Moment,
) -> (result: WebhookOutcome)
    requires
        old(broker)@.well_formed(),
        old(broker)@.config.reaches(now),
    ensures
        final(broker)@.well_formed(),
        match received(context, *head, body) {
            Err(refusal) => *final(broker) == *old(broker) && (result matches
                WebhookOutcome::Rejected(rejection) && rejection@ == refusal),
            Ok(incoming) => taken_in(
                incoming,
                capture,
                old(broker)@.pruned(now),
                now,
                result,
                final(broker)@,
            ),
        },
{
    match receive(context, head, body) {
        Ok(incoming) => submit(incoming, capture, broker, now),
        Err(rejection) => WebhookOutcome::Rejected(rejection),
    }
}

// ---------------------------------------------------------------------------
// Laws
// ---------------------------------------------------------------------------

/// Two characters are the same but for case exactly if they are the same or one is the capital of
/// the other, among the ASCII letters.
pub proof fn case_concerns_ascii_letters(a: char, b: char)
    ensures
        lower(a) == lower(b) <==> a == b || ('A' <= a <= 'Z' && b as int == a as int + 32) || ('A'
            <= b <= 'Z' && a as int == b as int + 32),
{
}

/// A request gets past its head exactly if it is a POST of JSON to the path of the webhook; the
/// method is looked at first, then the path, then the content type.
pub proof fn only_json_posts_to_the_webhook_pass(head: WebhookHead)
    ensures
        head_rejection(head) is None <==> head.is_post && head.path@ == "/v1/webhooks/approval"@ && (
        head.content_type matches Some(value) && same_but_for_case(value@, "application/json"@)),
        head_rejection(head) matches Some(refusal) ==> {
            &&& refusal.status == 405 <==> !head.is_post
            &&& refusal.status == 404 <==> head.is_post && head.path@ != "/v1/webhooks/approval"@
            &&& refusal.status == 415 <==> head.is_post && head.path@ == "/v1/webhooks/approval"@
            &&& refusal.status == 405 ==> refusal.category == "method_not_allowed"@ && refusal.error
                is None
            &&& refusal.status == 404 ==> refusal.category == "unknown_path"@ && refusal.error
                is None
            &&& refusal.status == 415 ==> refusal.category == "unsupported_media_type"@
                && refusal.error == Some("content-type must be application/json"@)
        },
        forall|a: Seq<char>, b: Seq<char>| #[trigger]
            same_but_for_case(a, b) <==> a.len() == b.len() && forall|i: int|
                0 <= i < a.len() ==> lower(#[trigger] a[i]) == lower(b[i]),
{
}

/// A body that is refused is told whether it, or the detail made of it, was too large, and nothing
/// more: all other faults look the same.
pub proof fn refused_bodies_learn_little(error: ProtocolErrorModel)
    ensures
        body_rejection(error).status == 413 <==> error is BodyTooLarge,
        body_rejection(error).status == 422 <==> error is DetailTooLarge,
        body_rejection(error).status == 400 <==> !(error is BodyTooLarge) && !(error
            is DetailTooLarge),
        error is BodyTooLarge ==> body_rejection(error).category == "body_too_large"@
            && body_rejection(error).error == Some("request body is too large"@),
        error is DetailTooLarge ==> body_rejection(error).category == "detail_too_large"@
            && body_rejection(error).error == Some("approval detail is too large"@),
        body_rejection(error).status == 400 ==> body_rejection(error).category
            == "invalid_request"@ && body_rejection(error).error == Some("invalid webhook request"@),
{
}

/// A request that the broker refuses is told whether it came twice or where the limit was reached.
pub proof fn refused_requests_are_told_why(error: BrokerErrorModel)
    ensures
        broker_rejection(error).status == 409 <==> error is DuplicateRequest,
        broker_rejection(error).status == 429 <==> error is PerSessionCapacity,
        broker_rejection(error).status == 503 <==> error is GlobalCapacity,
        error is DuplicateRequest ==> broker_rejection(error).category == "duplicate_request"@
            && broker_rejection(error).error == Some("duplicate approval request"@),
        error is PerSessionCapacity ==> broker_rejection(error).category
            == "per_session_capacity"@ && broker_rejection(error).error == Some(
            "per-session pending limit reached"@,
        ),
        error is GlobalCapacity ==> broker_rejection(error).category == "global_capacity"@
            && broker_rejection(error).error == Some("global pending limit reached"@),
        !(error is DuplicateRequest) && !(error is PerSessionCapacity) && !(error is GlobalCapacity)
            ==> broker_rejection(error).status == 500 && broker_rejection(error).category
            == "broker_registration"@ && broker_rejection(error).error == Some(
            "could not register approval request"@,
        ),
{
}

/// What reaches the broker passed its head, was read within the limits and was accepted; a body
/// that could not be read is told whether it was too large.
pub proof fn only_accepted_requests_reach_the_broker(
    context: WebhookContext,
    head: WebhookHead,
    body: Result<WebhookBody, ReadBodyError>,
)
    ensures
        received(context, head, body) matches Ok(incoming) ==> head_rejection(head) is None && (body
            matches Ok(read) && parsed_body(
            read.bytes@.len(),
            context.max_body_bytes,
            context.max_detail_bytes,
            read.envelope,
        ) == Ok::<IncomingModel, ProtocolErrorModel>(incoming)),
        head_rejection(head) matches Some(refusal) ==> received(context, head, body) == Err::<
            IncomingModel,
            RejectionModel,
        >(refusal),
        head_rejection(head) is None && (body matches Err(fault) && fault is TooLarge) ==> (
        received(context, head, body) matches Err(refusal) && refusal.status == 413
            && refusal.category == "body_too_large"@),
        head_rejection(head) is None && (body matches Err(fault) && fault is Transport) ==> (
        received(context, head, body) matches Err(refusal) && refusal.status == 400
            && refusal.category == "body_transport"@),
        head_rejection(head) is None && (body matches Ok(read) && parsed_body(
            read.bytes@.len(),
            context.max_body_bytes,
            context.max_detail_bytes,
            read.envelope,
        ) is Ok) ==> received(context, head, body) is Ok,
{
}

/// After a shutdown whatever comes in is denied, and nothing changes.
pub proof fn nothing_is_granted_after_a_shutdown(
    incoming: IncomingModel,
    capture: Option<&DebugCapture>,
    before: BrokerModel,
    now: Moment,
    result: WebhookOutcome,
    after: BrokerModel,
)
    requires
        taken_in(incoming, capture, before, now, result, after),
        before.stopped,
    ensures
        after == before,
        result matches WebhookOutcome::Answered { decision, record } && record is None && decision@
            == (DecisionModel::Denied { reason: "approval daemon is shutting down"@ }),
{
}

/// A request that a rule decides for the first time is answered at once, granted exactly if the
/// rule allows; it never joins the queue, and its identifiers are reserved.
pub proof fn rules_answer_at_once(
    incoming: IncomingModel,
    capture: Option<&DebugCapture>,
    before: BrokerModel,
    now: Moment,
    result: WebhookOutcome,
    after: BrokerModel,
)
    requires
        taken_in(incoming, capture, before, now, result, after),
        before.config.reaches(now),
        !before.stopped,
        deciding_rule(before.rules, incoming.request) is Some,
        !before.knows_key(incoming.request.session_id(), incoming.request.request_id()),
    ensures
        result is Answered,
        result->Answered_decision@ is Granted <==> (deciding_rule(
            before.rules,
            incoming.request,
        )->0).action is Allow,
        result->Answered_decision@ is Denied <==> (deciding_rule(
            before.rules,
            incoming.request,
        )->0).action is Deny,
        after.pending == before.pending,
        after.replay.len() == before.replay.len() + 1,
        after.replay.last().session_id == incoming.request.session_id(),
        after.replay.last().request_id == incoming.request.request_id(),
        after.replay.last().deadline == now.monotonic + before.config.tombstone_ttl,
        result->Answered_record is Some <==> captures(capture),
        result->Answered_record matches Some(record) ==> (record@ matches RecordModel::PolicyDecision {
            claimed_backend,
            source_kind,
            wire_request,
            rule,
            decision,
        } && claimed_backend == incoming.claimed_backend && source_kind
            == incoming.request.source_kind() && wire_request == incoming.request && rule == (
        deciding_rule(before.rules, incoming.request)->0).draft() && decision
            == result->Answered_decision@),
{
}

/// A request that no rule decides is never answered at once: it is refused, or waits in the queue
/// as it came, with the whole of its lease.
pub proof fn requests_without_a_rule_wait(
    incoming: IncomingModel,
    capture: Option<&DebugCapture>,
    before: BrokerModel,
    now: Moment,
    result: WebhookOutcome,
    after: BrokerModel,
)
    requires
        taken_in(incoming, capture, before, now, result, after),
        before.config.reaches(now),
        !before.stopped,
        deciding_rule(before.rules, incoming.request) is None,
    ensures
        !(result is Answered),
        before.admission_error(incoming.request) is Some ==> result is Rejected && after == before,
        result matches WebhookOutcome::Waiting { submission, record } ==> {
            &&& after.pending.len() == before.pending.len() + 1
            &&& exists|k: int|
                0 <= k < after.pending.len() && (#[trigger] after.pending[k]).approval_id
                    == submission.approval_id@ && after.pending[k].request == incoming.request
                    && after.pending[k].deadline == submission.deadline
            &&& submission.deadline == now.monotonic + before.config.request_timeout
            &&& record is Some <==> captures(capture)
        },
        result is Waiting && result->Waiting_record is Some ==> ((result->Waiting_record->0)@
            matches RecordModel::RequestReceived {
            approval_id,
            claimed_backend,
            source_kind,
            wire_request,
            deadline,
        } && approval_id == result->Waiting_submission.approval_id@ && claimed_backend
            == incoming.claimed_backend && source_kind == incoming.request.source_kind()
            && wire_request == incoming.request && deadline == timestamp_text(
            (now.wall + before.config.request_timeout) as u128,
        )),
{
    if result is Waiting {
        crate::broker::requests_are_registered_as_they_came(
            before,
            result->Waiting_submission.approval_id@,
            incoming,
            now,
        );
    }
}

/// A refusal is seen as what its fields hold.
pub proof fn refusals_are_seen_field_by_field(rejection: Rejection)
    ensures
        rejection@.status == rejection.status,
        rejection@.category == rejection.category@,
        rejection@.error is Some <==> rejection.error is Some,
        rejection.error matches Some(error) ==> rejection@.error == Some(error@),
{
}

/// Records are written exactly while capture runs and has not failed.
pub proof fn records_are_written_while_capture_runs(capture: Option<&DebugCapture>)
    ensures
        captures(capture) <==> capture is Some && (capture->0)@.failure is None,
{
}

} // verus!
